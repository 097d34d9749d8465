use kessler::localization::{Item, Language, Localization, Record};

fn record(id: &str, en: &str, es: Option<&str>, ru: Option<&str>) -> Option<Record> {
    Some(Record {
        id: id.to_string(),
        item: Item {
            en: en.to_string(),
            es: es.map(|s| s.to_string()),
            ru: ru.map(|s| s.to_string()),
        },
    })
}

fn sample() -> Localization {
    Localization::from_records(vec![
        record("launch", "Launch", Some("Lanzar"), Some("Запуск")),
        None,
        record("science", "Science", None, Some("")),
        record("launch", "Start", Some("Empezar"), None),
        record("debris", "Debris", Some(""), None),
    ])
}

#[test]
fn language_native_names() {
    assert_eq!(Language::English.native(), "English");
    assert_eq!(Language::Spanish.native(), "Español");
    assert_eq!(Language::Russian.native(), "Русский");
}

#[test]
fn language_default_is_english() {
    assert_eq!(Language::default(), Language::English);
}

#[test]
fn localization_gives_each_language() {
    let loc = sample();
    assert_eq!(loc.get("launch", Language::English), "Launch");
    assert_eq!(loc.get("launch", Language::Spanish), "Lanzar");
    assert_eq!(loc.get("launch", Language::Russian), "Запуск");
}

#[test]
fn localization_falls_back_to_english() {
    let loc = sample();
    // missing translation
    assert_eq!(loc.get("science", Language::Spanish), "Science");
    // empty translation
    assert_eq!(loc.get("science", Language::Russian), "Science");
    assert_eq!(loc.get("debris", Language::Spanish), "Debris");
    assert_eq!(loc.get("debris", Language::Russian), "Debris");
}

#[test]
fn localization_first_row_wins() {
    let loc = sample();
    assert_eq!(loc.get("launch", Language::English), "Launch");
    assert_eq!(loc.get("launch", Language::Spanish), "Lanzar");
}

#[test]
fn localization_missing_id() {
    let loc = sample();
    assert_eq!(loc.get("nothing", Language::English), "<OOPS missing text>");
    assert_eq!(loc.get("nothing", Language::Russian), "<OOPS missing text>");
    let empty = Localization::from_records(vec![None, None]);
    assert_eq!(empty.get("launch", Language::Spanish), "<OOPS missing text>");
}
