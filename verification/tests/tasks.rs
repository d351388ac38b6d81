use mini_backend::ops::{add_task, complete_task, max_id};
use mini_backend::report::{
    add_message, completed_message, empty_list_message, list_header, list_lines, list_row,
    list_rule, not_found_message,
};
use mini_backend::store::{load_tasks_from_text, save_tasks_to_text};
use mini_backend::task::{FormatError, Task};

fn task(id: u32, title: &str, completed: bool) -> Task {
    Task { id, title: title.to_string(), completed }
}

#[test]
fn test_crud_operations() {
    let task1 = task(1, "Test 1", false);
    let tasks = vec![task1];
    let text = save_tasks_to_text(&tasks);

    let loaded = load_tasks_from_text(Some(text.as_str())).expect("Fall\u{f3} carga");
    assert_eq!(loaded.len(), 1);
    assert_eq!(loaded[0].title, "Test 1");
}

#[test]
fn add_assigns_increasing_unique_ids() {
    let mut tasks: Vec<Task> = Vec::new();
    let id1 = add_task(&mut tasks, "same title".to_string());
    let id2 = add_task(&mut tasks, "same title".to_string());
    let id3 = add_task(&mut tasks, "another".to_string());
    assert_eq!(id1, 1);
    assert_eq!(id2, 2);
    assert_eq!(id3, 3);
    assert!(id1 < id2 && id2 < id3);
    assert_eq!(tasks[0].id, 1);
    assert_eq!(tasks[1].id, 2);
    assert_eq!(tasks[2].id, 3);
}

#[test]
fn add_skips_past_largest_id() {
    let mut tasks = vec![task(5, "five", true), task(3, "three", false)];
    assert_eq!(max_id(&tasks), 5);
    let id = add_task(&mut tasks, "six".to_string());
    assert_eq!(id, 6);
    assert_eq!(tasks.len(), 3);
    assert_eq!(tasks[2].id, 6);
}

#[test]
fn add_then_list_shows_new_task_pending() {
    let mut tasks: Vec<Task> = Vec::new();
    let id = add_task(&mut tasks, "Comprar pan".to_string());
    assert_eq!(id, 1);
    assert!(!tasks[0].completed);
    assert_eq!(tasks[0].title, "Comprar pan");
    let lines = list_lines(&tasks);
    assert_eq!(lines.len(), 3);
    assert_eq!(lines[2], "1     | [ ]        | Comprar pan");
}

#[test]
fn complete_marks_only_the_matching_task() {
    let mut tasks = vec![task(1, "a", false), task(2, "b", false), task(3, "c", false)];
    let found = complete_task(&mut tasks, 2);
    assert!(found);
    assert!(!tasks[0].completed);
    assert!(tasks[1].completed);
    assert!(!tasks[2].completed);
    assert_eq!(tasks[1].id, 2);
    assert_eq!(tasks[1].title, "b");
    let lines = list_lines(&tasks);
    assert_eq!(lines[2], "1     | [ ]        | a");
    assert_eq!(lines[3], "2     | [Hecho]    | b");
    assert_eq!(lines[4], "3     | [ ]        | c");
}

#[test]
fn complete_missing_id_changes_nothing() {
    let mut tasks = vec![task(1, "a", false), task(2, "b", true)];
    let before = save_tasks_to_text(&tasks);
    let found = complete_task(&mut tasks, 99);
    assert!(!found);
    let after = save_tasks_to_text(&tasks);
    assert_eq!(before, after);
    assert_eq!(
        not_found_message(99),
        "No se encontr\u{f3} la tarea con ID 99."
    );
}

#[test]
fn complete_is_idempotent() {
    let mut tasks = vec![task(7, "done twice", false)];
    assert!(complete_task(&mut tasks, 7));
    let once = save_tasks_to_text(&tasks);
    assert!(complete_task(&mut tasks, 7));
    let twice = save_tasks_to_text(&tasks);
    assert!(tasks[0].completed);
    assert_eq!(once, twice);
}

#[test]
fn save_then_load_round_trips() {
    let tasks = vec![
        task(1, "plain", false),
        task(2, "with \"quotes\" and \\slashes\\", true),
        task(3, "control\tchars\nhere", false),
        task(4, "acentos y e\u{f1}es: caf\u{e9} \u{1f600}", true),
    ];
    let text = save_tasks_to_text(&tasks);
    let loaded = load_tasks_from_text(Some(text.as_str())).expect("debe cargar");
    assert_eq!(loaded.len(), tasks.len());
    for (a, b) in tasks.iter().zip(loaded.iter()) {
        assert_eq!(a.id, b.id);
        assert_eq!(a.title, b.title);
        assert_eq!(a.completed, b.completed);
    }
}

#[test]
fn save_writes_pretty_array() {
    let tasks = vec![task(1, "Test 1", false)];
    let text = save_tasks_to_text(&tasks);
    assert_eq!(
        text,
        "[\n  {\n    \"id\": 1,\n    \"title\": \"Test 1\",\n    \"completed\": false\n  }\n]"
    );
    let empty: Vec<Task> = Vec::new();
    assert_eq!(save_tasks_to_text(&empty), "[]");
}

#[test]
fn load_missing_file_is_empty_collection() {
    let loaded = load_tasks_from_text(None).expect("sin archivo no es error");
    assert!(loaded.is_empty());
}

#[test]
fn load_blank_text_is_empty_collection() {
    let loaded = load_tasks_from_text(Some("  \n\t  \r\n ")).expect("solo espacios");
    assert!(loaded.is_empty());
    let loaded2 = load_tasks_from_text(Some("")).expect("vac\u{ed}o");
    assert!(loaded2.is_empty());
}

#[test]
fn load_unicode_blank_text_is_empty_collection() {
    // everything str::trim removes counts as blank
    for blank in [
        "\u{000B}",
        "\u{000C}",
        "\u{0085}\u{00A0}",
        "\u{2003}\u{2028}\u{2029}\u{3000}",
        " \u{000B}\t\u{205F}\n",
    ] {
        assert!(blank.trim().is_empty());
        let loaded = load_tasks_from_text(Some(blank)).expect("recortado en blanco");
        assert!(loaded.is_empty());
    }
    // blank characters are still not JSON whitespace inside a document
    assert!(load_tasks_from_text(Some("\u{000B}[]")).is_err());
}

#[test]
fn load_accepts_fields_in_any_order() {
    let loaded = load_tasks_from_text(Some(
        "[{\"completed\": false, \"id\": 1, \"title\": \"x\"}]",
    ))
    .expect("otro orden de claves");
    assert_eq!(loaded.len(), 1);
    assert_eq!(loaded[0].id, 1);
    assert_eq!(loaded[0].title, "x");
    assert!(!loaded[0].completed);

    let loaded = load_tasks_from_text(Some(
        "[{\"title\": \"y\", \"completed\": true, \"id\": 9}]",
    ))
    .expect("tercer orden");
    assert_eq!(loaded[0].id, 9);
    assert_eq!(loaded[0].title, "y");
    assert!(loaded[0].completed);
}

#[test]
fn load_rejects_wrong_field_sets() {
    // a key twice
    assert!(load_tasks_from_text(Some(
        "[{\"id\": 1, \"id\": 2, \"title\": \"x\", \"completed\": false}]"
    ))
    .is_err());
    // a key missing
    assert!(load_tasks_from_text(Some("[{\"id\": 1, \"title\": \"x\"}]")).is_err());
    // a key too many
    assert!(load_tasks_from_text(Some(
        "[{\"id\": 1, \"title\": \"x\", \"completed\": false, \"extra\": 0}]"
    ))
    .is_err());
}

#[test]
fn load_decodes_four_digit_escapes() {
    let loaded = load_tasks_from_text(Some(
        "[{\"id\": 1, \"title\": \"\\u0141\\u00f3d\\u017a\", \"completed\": false}]",
    ))
    .expect("escapes de cuatro d\u{ed}gitos");
    assert_eq!(loaded[0].title, "\u{141}\u{f3}d\u{17a}");
    // a lone surrogate names no character
    assert!(load_tasks_from_text(Some(
        "[{\"id\": 1, \"title\": \"\\uD800\", \"completed\": false}]"
    ))
    .is_err());
}

#[test]
fn load_rejects_leading_zeros() {
    assert!(load_tasks_from_text(Some(
        "[{\"id\": 007, \"title\": \"x\", \"completed\": false}]"
    ))
    .is_err());
    let loaded = load_tasks_from_text(Some(
        "[{\"id\": 0, \"title\": \"x\", \"completed\": false}]",
    ))
    .expect("un cero solo es v\u{e1}lido");
    assert_eq!(loaded[0].id, 0);
}

#[test]
fn load_single_object_is_format_error() {
    let r = load_tasks_from_text(Some(
        "{\n  \"id\": 1,\n  \"title\": \"viejo\",\n  \"completed\": false\n}",
    ));
    assert!(r.is_err());
    let e = r.unwrap_err();
    assert_eq!(e, FormatError {});
    assert!(e.message().contains("Borra el archivo"));
}

#[test]
fn load_malformed_text_is_format_error() {
    assert!(load_tasks_from_text(Some("[{\"id\": 1}]")).is_err());
    assert!(load_tasks_from_text(Some("not json at all")).is_err());
    assert!(load_tasks_from_text(Some("[")).is_err());
    assert!(load_tasks_from_text(Some("[{\"id\": 1, \"title\": \"x\", \"completed\": false}] trailing")).is_err());
}

#[test]
fn load_accepts_compact_spacing() {
    let loaded =
        load_tasks_from_text(Some("[{\"id\":12,\"title\":\"x\",\"completed\":true}]"))
            .expect("compacto");
    assert_eq!(loaded.len(), 1);
    assert_eq!(loaded[0].id, 12);
    assert_eq!(loaded[0].title, "x");
    assert!(loaded[0].completed);
}

#[test]
fn full_scenario_from_empty_store() {
    // no backing file yet
    let mut tasks = load_tasks_from_text(None).expect("sin archivo");
    assert!(tasks.is_empty());

    let id1 = add_task(&mut tasks, "Buy milk".to_string());
    assert_eq!(add_message(id1, "Buy milk"), "Tarea agregada: ID 1 - Buy milk");
    let saved = save_tasks_to_text(&tasks);

    let mut tasks = load_tasks_from_text(Some(saved.as_str())).expect("carga");
    let id2 = add_task(&mut tasks, "Pay rent".to_string());
    assert_eq!(add_message(id2, "Pay rent"), "Tarea agregada: ID 2 - Pay rent");
    let saved = save_tasks_to_text(&tasks);

    let mut tasks = load_tasks_from_text(Some(saved.as_str())).expect("carga");
    assert!(complete_task(&mut tasks, 1));
    assert_eq!(completed_message(1), "Tarea 1 marcada como completada.");
    let saved = save_tasks_to_text(&tasks);

    let tasks = load_tasks_from_text(Some(saved.as_str())).expect("carga");
    let lines = list_lines(&tasks);
    assert_eq!(lines.len(), 4);
    assert_eq!(lines[0], "ID    | Estado     | T\u{ed}tulo");
    assert_eq!(lines[1], "-".repeat(40));
    assert_eq!(lines[2], "1     | [Hecho]    | Buy milk");
    assert_eq!(lines[3], "2     | [ ]        | Pay rent");
}

#[test]
fn report_helpers_match_fixed_texts() {
    assert_eq!(empty_list_message(), "No hay tareas registradas.");
    assert_eq!(list_header(), "ID    | Estado     | T\u{ed}tulo");
    assert_eq!(list_rule(), "-".repeat(40));
    let r = list_row(&task(123456, "wide id", false));
    assert_eq!(r, "123456 | [ ]        | wide id");
}
