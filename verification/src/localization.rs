use vstd::prelude::*;
use vstd::hash_map::StringHashMap;

verus! {

/// The languages the game text is available in.
#[derive(Debug, Clone, Copy, PartialEq, Eq, Structural)]
pub enum Language {
    English,
    Spanish,
    Russian,
}

impl Default for Language {
    fn default() -> (language: Self)
        ensures
            language == Language::English,
    {
        Language::English
    }
}

/// The name of a language, written in that language.
pub open spec fn spec_native_name(language: Language) -> Seq<char> {
    match language {
        Language::English => "English"@,
        Language::Spanish => "Español"@,
        Language::Russian => "Русский"@,
    }
}

impl Language {
    /// The name of the language as its speakers write it.
    pub fn native(&self) -> (name: &'static str)
        ensures
            name@ == spec_native_name(*self),
    {
        match self {
            Language::English => "English",
            Language::Spanish => "Español",
            Language::Russian => "Русский",
        }
    }
}

/// The text of one entry in every language; English is always present,
/// the other languages may be missing.
#[derive(Debug, Clone)]
pub struct Item {
    pub en: String,
    pub es: Option<String>,
    pub ru: Option<String>,
}

/// One row of the localization table: an id and its texts.
#[derive(Debug, Clone)]
pub struct Record {
    pub id: String,
    pub item: Item,
}

/// The text shown when an id has no entry at all.
pub open spec fn spec_missing_text() -> Seq<char> {
    "<OOPS missing text>"@
}

/// A translation, or the English text where the translation is absent or empty.
pub open spec fn spec_or_english(translation: Option<String>, english: Seq<char>) -> Seq<char> {
    match translation {
        Some(t) => if t@.len() > 0 { t@ } else { english },
        None => english,
    }
}

/// The text of an entry in a language.
pub open spec fn spec_item_text(item: Item, language: Language) -> Seq<char> {
    match language {
        Language::English => item.en@,
        Language::Spanish => spec_or_english(item.es, item.en@),
        Language::Russian => spec_or_english(item.ru, item.en@),
    }
}

/// The table that a sequence of rows gives: a row whose id came earlier is
/// ignored, and a row that could not be read (`None`) is skipped.
pub open spec fn spec_first_records(rows: Seq<Option<Record>>) -> Map<Seq<char>, Item>
    decreases rows.len(),
{
    if rows.len() == 0 {
        Map::empty()
    } else {
        let table = spec_first_records(rows.drop_last());
        match rows.last() {
            Some(record) => if table.contains_key(record.id@) {
                table
            } else {
                table.insert(record.id@, record.item)
            },
            None => table,
        }
    }
}

/// Game text in every language, looked up by id.
pub struct Localization {
    records: StringHashMap<Item>,
}

impl View for Localization {
    type V = Map<Seq<char>, Item>;

    closed spec fn view(&self) -> Map<Seq<char>, Item> {
        self.records@
    }
}

fn clone_text(text: &Option<String>) -> (copy: Option<String>)
    ensures
        copy == *text,
{
    match text {
        Some(t) => Some(t.clone()),
        None => None,
    }
}

fn clone_item(item: &Item) -> (copy: Item)
    ensures
        copy == *item,
{
    Item { en: item.en.clone(), es: clone_text(&item.es), ru: clone_text(&item.ru) }
}

/// The translation when it is present and not empty, the English text otherwise.
fn or_english<'a>(translation: &'a Option<String>, english: &'a String) -> (text: &'a str)
    ensures
        text@ == spec_or_english(*translation, english@),
{
    match translation {
        Some(t) => {
            let t = t.as_str();
            if t.is_empty() {
                english.as_str()
            } else {
                t
            }
        },
        None => english.as_str(),
    }
}

impl Localization {
    /// Builds the table from the rows of the localization file, in file order.
    /// A row that could not be read is skipped, and of two rows with the same
    /// id the first one is kept.
    pub fn from_records(rows: Vec<Option<Record>>) -> (localization: Self)
        ensures
            localization@ == spec_first_records(rows@),
    {
        let mut records: StringHashMap<Item> = StringHashMap::new();
        let mut i: usize = 0;
        while i < rows.len()
            invariant
                i <= rows.len(),
                records@ == spec_first_records(rows@.take(i as int)),
            decreases rows.len() - i,
        {
            proof {
                assert(rows@.take(i + 1).drop_last() =~= rows@.take(i as int));
            }
            match &rows[i] {
                Some(record) => {
                    if !records.contains_key(record.id.as_str()) {
                        records.insert(record.id.clone(), clone_item(&record.item));
                    }
                },
                None => {},
            }
            i = i + 1;
        }
        proof {
            assert(rows@.take(rows.len() as int) =~= rows@);
        }
        Localization { records }
    }

    /// Whether the table has an entry for the id.
    pub fn contains(&self, id: &str) -> (found: bool)
        ensures
            found == self@.contains_key(id@),
    {
        self.records.contains_key(id)
    }

    /// The text with the given id in the given language. A translation that is
    /// missing or empty falls back to English; an id with no entry gives
    /// `"<OOPS missing text>"`.
    pub fn get(&self, id: &str, language: Language) -> (text: &str)
        ensures
            self@.contains_key(id@) ==> text@ == spec_item_text(self@[id@], language),
            !self@.contains_key(id@) ==> text@ == spec_missing_text(),
            self@.contains_key(id@) && language == Language::English ==> text@ == self@[id@].en@,
            self@.contains_key(id@) && language == Language::Spanish ==> if self@[id@].es is Some
                && self@[id@].es->0@.len() > 0 {
                text@ == self@[id@].es->0@
            } else {
                text@ == self@[id@].en@
            },
            self@.contains_key(id@) && language == Language::Russian ==> if self@[id@].ru is Some
                && self@[id@].ru->0@.len() > 0 {
                text@ == self@[id@].ru->0@
            } else {
                text@ == self@[id@].en@
            },
    {
        match self.records.get(id) {
            Some(item) => match language {
                Language::English => item.en.as_str(),
                Language::Spanish => or_english(&item.es, &item.en),
                Language::Russian => or_english(&item.ru, &item.en),
            },
            None => "<OOPS missing text>",
        }
    }
}

/// The first readable row with an id is the one the table keeps for it:
/// rows with the same id that come later are ignored.
pub proof fn lemma_first_record_wins(rows: Seq<Option<Record>>, i: int)
    requires
        0 <= i < rows.len(),
        rows[i] is Some,
        forall|j: int|
            0 <= j < i && #[trigger] rows[j] is Some ==> rows[j]->0.id@ != rows[i]->0.id@,
    ensures
        spec_first_records(rows).contains_key(rows[i]->0.id@),
        spec_first_records(rows)[rows[i]->0.id@] == rows[i]->0.item,
    decreases rows.len(),
{
    let id = rows[i]->0.id@;
    if i == rows.len() - 1 {
        lemma_unknown_id_missing(rows.drop_last(), id);
    } else {
        lemma_first_record_wins(rows.drop_last(), i);
    }
}

/// An id that no readable row carries has no entry in the table.
pub proof fn lemma_unknown_id_missing(rows: Seq<Option<Record>>, id: Seq<char>)
    requires
        forall|j: int| 0 <= j < rows.len() && #[trigger] rows[j] is Some ==> rows[j]->0.id@ != id,
    ensures
        !spec_first_records(rows).contains_key(id),
    decreases rows.len(),
{
    if rows.len() > 0 {
        lemma_unknown_id_missing(rows.drop_last(), id);
    }
}

/// Every entry of the table comes from a readable row of the file.
pub proof fn lemma_entries_come_from_rows(rows: Seq<Option<Record>>, id: Seq<char>)
    requires
        spec_first_records(rows).contains_key(id),
    ensures
        exists|j: int|
            0 <= j < rows.len() && #[trigger] rows[j] is Some && rows[j]->0.id@ == id
                && rows[j]->0.item == spec_first_records(rows)[id],
    decreases rows.len(),
{
    let prefix = rows.drop_last();
    if spec_first_records(prefix).contains_key(id) {
        lemma_entries_come_from_rows(prefix, id);
        let j = choose|j: int|
            0 <= j < prefix.len() && #[trigger] prefix[j] is Some && prefix[j]->0.id@ == id
                && prefix[j]->0.item == spec_first_records(prefix)[id];
        assert(rows[j] == prefix[j]);
    } else {
        assert(rows[rows.len() - 1] is Some);
    }
}

/// Which text an entry gives in each language: English always gives the
/// English text; Spanish and Russian give their own translation when it is
/// present and not empty, and otherwise exactly the English text. So the
/// Russian text never depends on the Spanish translation, nor the Spanish
/// text on the Russian one.
pub proof fn lemma_item_text_falls_back_to_english(item: Item, other: Item)
    requires
        other.en == item.en,
    ensures
        spec_item_text(item, Language::English) == item.en@,
        item.es is Some && item.es->0@.len() > 0 ==> spec_item_text(item, Language::Spanish)
            == item.es->0@,
        item.es is None || item.es->0@.len() == 0 ==> spec_item_text(item, Language::Spanish)
            == item.en@,
        item.ru is Some && item.ru->0@.len() > 0 ==> spec_item_text(item, Language::Russian)
            == item.ru->0@,
        item.ru is None || item.ru->0@.len() == 0 ==> spec_item_text(item, Language::Russian)
            == item.en@,
        other.ru == item.ru ==> spec_item_text(other, Language::Russian) == spec_item_text(
            item,
            Language::Russian,
        ),
        other.es == item.es ==> spec_item_text(other, Language::Spanish) == spec_item_text(
            item,
            Language::Spanish,
        ),
{
}

} // verus!
