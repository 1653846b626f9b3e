use vstd::prelude::*;

verus! {

// ---------------------------------------------------------------------------
// The model of a dependency section, as plain values.
//
// One entry of a section is a crate name together with what its item holds:
//   - a bare string declaration:        (Some(text), None)
//   - a table or inline table:          (None, Some(pairs)) where each pair is
//     a key and, when its value is a string, that string
//   - anything else (an anomaly):       (None, None)
// ---------------------------------------------------------------------------

pub type PairsModel = Seq<(Seq<char>, Option<Seq<char>>)>;

pub type EntryModel = (Option<Seq<char>>, Option<PairsModel>);

pub type SectionModel = Seq<(Seq<char>, EntryModel)>;

/// The text that serializing a document gives; the document's one model.
pub uninterp spec fn doc_text(d: toml_edit::DocumentMut) -> Seq<char>;

/// Whether toml_edit's parser accepts the text.
pub uninterp spec fn toml_parse_ok(text: Seq<char>) -> bool;

/// What [`extract_entries`] mirrors out of the named section of a parsed
/// document, as a function of the document's text.
pub uninterp spec fn toml_entries(text: Seq<char>, section: Seq<char>) -> SectionModel;

/// What [`extract_members`] mirrors out of `workspace.members`: `None` when
/// the text has no such array, otherwise one element per array entry, a
/// string where the entry is a string.
pub uninterp spec fn toml_members(text: Seq<char>) -> Option<Seq<Option<Seq<char>>>>;

#[verifier::external_type_specification]
#[verifier::external_body]
pub struct ExDocumentMut(toml_edit::DocumentMut);

// ---------------------------------------------------------------------------
// The executable mirror handed out by extraction.
// ---------------------------------------------------------------------------

/// What one dependency entry's item holds.
pub enum RawItem {
    /// A bare string value: the declared version text itself.
    Bare(String),
    /// A table or inline table: its keys, each with its value when that value
    /// is a string.
    TableLike(Vec<(String, Option<String>)>),
    /// Anything else: an array, a boolean, a number, an array of tables.
    Other,
}

/// One entry of a dependency section: the crate name and its item.
pub struct RawEntry {
    pub name: String,
    pub item: RawItem,
}

pub open spec fn pairs_model(v: Seq<(String, Option<String>)>) -> PairsModel {
    v.map_values(
        |p: (String, Option<String>)|
            (
                p.0@,
                match p.1 {
                    Some(s) => Some(s@),
                    None => None::<Seq<char>>,
                },
            ),
    )
}

pub open spec fn item_model(i: RawItem) -> EntryModel {
    match i {
        RawItem::Bare(s) => (Some(s@), None),
        RawItem::TableLike(pairs) => (None, Some(pairs_model(pairs@))),
        RawItem::Other => (None, None),
    }
}

impl View for RawEntry {
    type V = (Seq<char>, EntryModel);

    open spec fn view(&self) -> (Seq<char>, EntryModel) {
        (self.name@, item_model(self.item))
    }
}

pub open spec fn section_model(v: Seq<RawEntry>) -> SectionModel {
    v.map_values(|e: RawEntry| e@)
}

/// No two entries of the section share a crate name (TOML keys are unique).
pub open spec fn unique_entry_names(entries: SectionModel) -> bool {
    forall|i: int, j: int| 0 <= i < j < entries.len() ==> entries[i].0 != entries[j].0
}

pub open spec fn has_entry(entries: SectionModel, name: Seq<char>) -> bool {
    exists|i: int| 0 <= i < entries.len() && entries[i].0 == name
}

pub open spec fn pairs_has_key(pairs: PairsModel, key: Seq<char>) -> bool {
    exists|j: int| 0 <= j < pairs.len() && pairs[j].0 == key
}

/// Every entry named `name` is a table-like item with a `version` key.
pub open spec fn entry_has_version_pair(entries: SectionModel, name: Seq<char>) -> bool {
    forall|i: int|
        0 <= i < entries.len() && (#[trigger] entries[i]).0 == name ==> entries[i].1.1 is Some
            && pairs_has_key(entries[i].1.1->0, "version"@)
}

// ---------------------------------------------------------------------------
// What the two in-place edits do to the model.
// ---------------------------------------------------------------------------

/// Replace the whole item of every entry named `name` by the bare string `v`.
pub open spec fn set_entry_bare(entries: SectionModel, name: Seq<char>, v: Seq<char>) -> SectionModel {
    entries.map_values(
        |e: (Seq<char>, EntryModel)|
            if e.0 == name {
                (e.0, (Some(v), None::<PairsModel>))
            } else {
                e
            },
    )
}

/// Give every `version` pair the string value `v`, leaving other pairs as
/// they are.
pub open spec fn set_pairs_version(pairs: PairsModel, v: Seq<char>) -> PairsModel {
    pairs.map_values(
        |p: (Seq<char>, Option<Seq<char>>)|
            if p.0 == "version"@ {
                (p.0, Some(v))
            } else {
                p
            },
    )
}

/// In every table-like entry named `name`, set the `version` pair to `v`.
pub open spec fn set_entry_version(entries: SectionModel, name: Seq<char>, v: Seq<char>) -> SectionModel {
    entries.map_values(
        |e: (Seq<char>, EntryModel)|
            if e.0 == name && e.1.1 is Some {
                (e.0, (e.1.0, Some(set_pairs_version(e.1.1->0, v))))
            } else {
                e
            },
    )
}

// ---------------------------------------------------------------------------
// Trusted calls into toml_edit.
// ---------------------------------------------------------------------------

/// Relies on `str::parse::<toml_edit::DocumentMut>`, toml_edit's
/// format-preserving parser: a parsed document serializes back to exactly the
/// input text, and the keys of any parsed table are unique, so no section
/// holds two entries with one name. The error carries the parser's message.
#[verifier::external_body]
pub(crate) fn parse_document(text: &str) -> (r: Result<toml_edit::DocumentMut, String>)
    ensures
        (r is Ok) == toml_parse_ok(text@),
        r matches Ok(d) ==> doc_text(d) == text@,
        r is Ok ==> forall|s: Seq<char>| unique_entry_names(#[trigger] toml_entries(text@, s)),
{
    match text.parse::<toml_edit::DocumentMut>() {
        Ok(d) => Ok(d),
        Err(e) => Err(e.to_string()),
    }
}

/// Relies on the `Display` impl of `toml_edit::DocumentMut`: serializing
/// gives the document's text, and that text is valid TOML, so parsing it
/// again succeeds.
#[verifier::external_body]
pub(crate) fn doc_to_string(d: &toml_edit::DocumentMut) -> (r: String)
    ensures
        r@ == doc_text(*d),
        toml_parse_ok(r@),
{
    d.to_string()
}

/// Relies on toml_edit's `Table::get`, `Item::as_str`, `Item::as_table_like`
/// and the table iterators: mirrors the named section of the document as
/// plain values, one [`RawEntry`] per entry, in table order. A section that
/// is absent or not a plain table gives no entries.
#[verifier::external_body]
pub(crate) fn extract_entries(d: &toml_edit::DocumentMut, section: &str) -> (r: Vec<RawEntry>)
    ensures
        section_model(r@) == toml_entries(doc_text(*d), section@),
{
    let mut out = Vec::new();
    if let Some(t) = d.get(section).and_then(|i| i.as_table()) {
        for (k, item) in t.iter() {
            let ri = if let Some(s) = item.as_str() {
                RawItem::Bare(s.to_owned())
            } else if let Some(tl) = item.as_table_like() {
                RawItem::TableLike(tl.iter().map(|(k2, v)| (k2.to_owned(), v.as_str().map(|s| s.to_owned()))).collect())
            } else {
                RawItem::Other
            };
            out.push(RawEntry { name: k.to_owned(), item: ri });
        }
    }
    out
}

/// Relies on toml_edit's `Item::get`, `Item::as_array` and `Value::as_str`:
/// mirrors the `workspace.members` array, one element per array entry, a
/// string where the entry is one.
#[verifier::external_body]
pub(crate) fn extract_members(d: &toml_edit::DocumentMut) -> (r: Option<Vec<Option<String>>>)
    ensures
        raw_members_model(r) == toml_members(doc_text(*d)),
{
    match d.get("workspace").and_then(|w| w.get("members")).and_then(|m| m.as_array()) {
        Some(a) => Some(a.iter().map(|v| v.as_str().map(|s| s.to_owned())).collect()),
        None => None,
    }
}

pub open spec fn raw_members_model(r: Option<Vec<Option<String>>>) -> Option<
    Seq<Option<Seq<char>>>,
> {
    match r {
        Some(v) => Some(
            v@.map_values(
                |o: Option<String>|
                    match o {
                        Some(s) => Some(s@),
                        None => None::<Seq<char>>,
                    },
            ),
        ),
        None => None,
    }
}

/// Relies on toml_edit's `IndexMut` impls and `toml_edit::value`: overwrites
/// the named entry's whole item with a bare string value, leaving every other
/// part of the document (other entries, other sections, the workspace table,
/// all formatting outside the touched value) untouched.
#[verifier::external_body]
pub(crate) fn set_dep_bare(d: &mut toml_edit::DocumentMut, section: &str, name: &str, v: &str)
    requires
        has_entry(toml_entries(doc_text(*old(d)), section@), name@),
    ensures
        toml_entries(doc_text(*final (d)), section@) == set_entry_bare(
            toml_entries(doc_text(*old(d)), section@),
            name@,
            v@,
        ),
        forall|s: Seq<char>|
            s != section@ ==> #[trigger] toml_entries(doc_text(*final (d)), s) == toml_entries(
                doc_text(*old(d)),
                s,
            ),
        section@ != "workspace"@ ==> toml_members(doc_text(*final (d))) == toml_members(
            doc_text(*old(d)),
        ),
{
    d[section][name] = toml_edit::value(v);
}

/// Relies on toml_edit's `IndexMut` impls and `toml_edit::value`: overwrites
/// the `version` value inside the named entry's table or inline table,
/// leaving the entry's other keys, every other entry, every other section and
/// all formatting outside the touched value untouched.
#[verifier::external_body]
pub(crate) fn set_dep_version(d: &mut toml_edit::DocumentMut, section: &str, name: &str, v: &str)
    requires
        has_entry(toml_entries(doc_text(*old(d)), section@), name@),
        entry_has_version_pair(toml_entries(doc_text(*old(d)), section@), name@),
    ensures
        toml_entries(doc_text(*final (d)), section@) == set_entry_version(
            toml_entries(doc_text(*old(d)), section@),
            name@,
            v@,
        ),
        forall|s: Seq<char>|
            s != section@ ==> #[trigger] toml_entries(doc_text(*final (d)), s) == toml_entries(
                doc_text(*old(d)),
                s,
            ),
        section@ != "workspace"@ ==> toml_members(doc_text(*final (d))) == toml_members(
            doc_text(*old(d)),
        ),
{
    d[section][name]["version"] = toml_edit::value(v);
}

} // verus!
