//! Dependency manifests: the document model, the rewrite of prefixed
//! dependency entries, and the text round trip through `serde_json`.

use crate::text::{has_prefix, starts_with};
use serde_json::Value as Json;
use vstd::prelude::*;
use vstd::string::*;

verus! {

#[verifier::external_type_specification]
#[verifier::external_body]
pub struct ExJson(serde_json::Value);

#[verifier::external_type_specification]
#[verifier::external_body]
pub struct ExJsonError(serde_json::Error);

/// A value inside a top-level object of a manifest.
pub enum Entry {
    Text(String),
    Other(Json),
}

/// A value at the top level of a manifest document.
pub enum Member {
    Mapping(Vec<(String, Entry)>),
    Other(Json),
}

/// A parsed manifest: a top-level object with its members in document order,
/// or any other JSON value, which is carried through untouched.
pub enum Document {
    Mapping(Vec<(String, Member)>),
    Other(Json),
}

pub enum EntryView {
    Text(Seq<char>),
    Other(Json),
}

pub enum MemberView {
    Mapping(Seq<(Seq<char>, EntryView)>),
    Other(Json),
}

pub enum DocumentView {
    Mapping(Seq<(Seq<char>, MemberView)>),
    Other(Json),
}

#[derive(Debug, PartialEq, Eq, Structural)]
pub enum ManifestError {
    /// The text is not a JSON document.
    ParseError,
    /// A `dependencies` or `devDependencies` member holds something other than an object.
    InvalidSection,
}

pub open spec fn entry_view(e: (String, Entry)) -> (Seq<char>, EntryView) {
    (e.0@, match e.1 {
        Entry::Text(s) => EntryView::Text(s@),
        Entry::Other(v) => EntryView::Other(v),
    })
}

pub open spec fn entries_view(es: Seq<(String, Entry)>) -> Seq<(Seq<char>, EntryView)> {
    es.map_values(|e: (String, Entry)| entry_view(e))
}

pub open spec fn member_view(m: (String, Member)) -> (Seq<char>, MemberView) {
    (m.0@, match m.1 {
        Member::Mapping(es) => MemberView::Mapping(entries_view(es@)),
        Member::Other(v) => MemberView::Other(v),
    })
}

pub open spec fn members_view(ms: Seq<(String, Member)>) -> Seq<(Seq<char>, MemberView)> {
    ms.map_values(|m: (String, Member)| member_view(m))
}

impl View for Document {
    type V = DocumentView;

    open spec fn view(&self) -> DocumentView {
        match self {
            Document::Mapping(ms) => DocumentView::Mapping(members_view(ms@)),
            Document::Other(v) => DocumentView::Other(*v),
        }
    }
}

/// The names of the two sub-mappings whose entries are rewritten.
pub open spec fn is_section(key: Seq<char>) -> bool {
    key == "dependencies"@ || key == "devDependencies"@
}

pub open spec fn rewrite_entry(e: (Seq<char>, EntryView), prefix: Seq<char>, version: Seq<char>) -> (
    Seq<char>,
    EntryView,
) {
    if has_prefix(e.0, prefix) {
        (e.0, EntryView::Text(version))
    } else {
        e
    }
}

pub open spec fn rewrite_entries(
    es: Seq<(Seq<char>, EntryView)>,
    prefix: Seq<char>,
    version: Seq<char>,
) -> Seq<(Seq<char>, EntryView)> {
    es.map_values(|e: (Seq<char>, EntryView)| rewrite_entry(e, prefix, version))
}

pub open spec fn rewrite_member(m: (Seq<char>, MemberView), prefix: Seq<char>, version: Seq<char>) -> (
    Seq<char>,
    MemberView,
) {
    match m.1 {
        MemberView::Mapping(es) => if is_section(m.0) {
            (m.0, MemberView::Mapping(rewrite_entries(es, prefix, version)))
        } else {
            m
        },
        MemberView::Other(_) => m,
    }
}

/// A member that names a sub-mapping but does not hold an object.
pub open spec fn is_invalid_section(m: (Seq<char>, MemberView)) -> bool {
    is_section(m.0) && m.1 is Other
}

pub open spec fn has_invalid_section(ms: Seq<(Seq<char>, MemberView)>) -> bool {
    exists|i: int| 0 <= i < ms.len() && is_invalid_section(#[trigger] ms[i])
}

/// The document with every entry of `dependencies` and `devDependencies`
/// whose name starts with `prefix` set to the text `version`; `None` where a
/// sub-mapping member is not an object.
pub open spec fn rewritten(d: DocumentView, prefix: Seq<char>, version: Seq<char>) -> Option<
    DocumentView,
> {
    match d {
        DocumentView::Mapping(ms) => if has_invalid_section(ms) {
            None
        } else {
            Some(
                DocumentView::Mapping(
                    ms.map_values(|m: (Seq<char>, MemberView)| rewrite_member(m, prefix, version)),
                ),
            )
        },
        DocumentView::Other(v) => Some(DocumentView::Other(v)),
    }
}

/// What `serde_json` parses `text` into, seen as a manifest; `None` where it
/// reports an error.
pub uninterp spec fn parsed_manifest(text: Seq<char>) -> Option<DocumentView>;

/// The indented text that `serde_json` renders for a manifest.
pub uninterp spec fn pretty_manifest(d: DocumentView) -> Seq<char>;

/// Relies on `serde_json::from_str` (with insertion-ordered maps): the value
/// depends on the text alone; object members keep their order.
#[verifier::external_body]
pub(crate) fn parse_document(text: &str) -> (r: Result<Document, serde_json::Error>)
    ensures
        r is Ok <==> parsed_manifest(text@) is Some,
        r matches Ok(d) ==> d@ == parsed_manifest(text@)->0,
{
    serde_json::from_str::<Json>(text).map(|v| match v {
        Json::Object(m) => Document::Mapping(m.into_iter().map(|(k, v)| (k, match v {
            Json::Object(es) => Member::Mapping(es.into_iter().map(|(k, v)| (k, match v {
                Json::String(s) => Entry::Text(s),
                v => Entry::Other(v),
            })).collect()),
            v => Member::Other(v),
        })).collect()),
        v => Document::Other(v),
    })
}

/// Relies on `serde_json::to_string_pretty`: the text depends on the value
/// alone, and rendering a `serde_json::Value` (string keys, an infallible
/// `Serialize`) does not fail.
#[verifier::external_body]
fn render_document(d: Document) -> (r: Result<String, serde_json::Error>)
    ensures
        r is Ok,
        r matches Ok(s) ==> s@ == pretty_manifest(d@),
{
    let v = match d {
        Document::Mapping(ms) => Json::Object(ms.into_iter().map(|(k, m)| (k, match m {
            Member::Mapping(es) => Json::Object(es.into_iter().map(|(k, e)| (k, match e {
                Entry::Text(s) => Json::String(s),
                Entry::Other(v) => v,
            })).collect()),
            Member::Other(v) => v,
        })).collect()),
        Document::Other(v) => v,
    };
    serde_json::to_string_pretty(&v)
}

pub(crate) fn same_text(a: &str, b: &str) -> (r: bool)
    ensures
        r == (a@ == b@),
{
    if a.unicode_len() != b.unicode_len() {
        return false;
    }
    let r = starts_with(a, b);
    proof {
        assert(a@.len() == b@.len() ==> a@ =~= a@.subrange(0, b@.len() as int));

    }
    r
}

pub fn is_section_key(key: &str) -> (r: bool)
    ensures
        r == is_section(key@),
{
    same_text(key, "dependencies") || same_text(key, "devDependencies")
}

/// Sets every entry whose name starts with `prefix` to the text `version`.
pub fn rewrite_entry_list(es: Vec<(String, Entry)>, prefix: &str, version: &str) -> (r: Vec<
    (String, Entry),
>)
    ensures
        entries_view(r@) == rewrite_entries(entries_view(es@), prefix@, version@),
{
    let ghost orig = es@;
    let mut rest = es;
    let mut out: Vec<(String, Entry)> = Vec::new();
    while rest.len() > 0
        invariant
            out.len() + rest.len() == orig.len(),
            rest@ == orig.subrange(out.len() as int, orig.len() as int),
            forall|j: int|
                0 <= j < out.len() ==> entry_view(#[trigger] out@[j]) == rewrite_entry(
                    entry_view(orig[j]),
                    prefix@,
                    version@,
                ),
        decreases rest.len(),
    {
        let ghost j = out.len() as int;
        let (k, e) = rest.remove(0);
        assert(orig[j] == (k, e));
        if starts_with(k.as_str(), prefix) {
            out.push((k, Entry::Text(version.to_owned())));
        } else {
            out.push((k, e));
        }
    }
    assert(entries_view(out@) =~= rewrite_entries(entries_view(orig), prefix@, version@));
    out
}

/// Whether a `dependencies` or `devDependencies` member holds something other than an object.
pub fn has_invalid_member(ms: &Vec<(String, Member)>) -> (r: bool)
    ensures
        r == has_invalid_section(members_view(ms@)),
{
    let ghost views = members_view(ms@);
    let mut i: usize = 0;
    while i < ms.len()
        invariant
            views == members_view(ms@),
            i <= ms.len(),
            forall|j: int| 0 <= j < i ==> !is_invalid_section(#[trigger] views[j]),
        decreases ms.len() - i,
    {
        if is_section_key(ms[i].0.as_str()) {
            if let Member::Other(_) = &ms[i].1 {
                assert(is_invalid_section(views[i as int]));
                return true;
            }
        }
        assert(!is_invalid_section(views[i as int]));
        i += 1;
    }
    false
}

/// Rewrites the prefixed entries of the `dependencies` and `devDependencies`
/// members; a document that is not an object comes back unchanged.
pub fn rewrite_document(doc: Document, prefix: &str, version: &str) -> (r: Result<
    Document,
    ManifestError,
>)
    ensures
        r is Err <==> rewritten(doc@, prefix@, version@) is None,
        r matches Ok(x) ==> rewritten(doc@, prefix@, version@) == Some(x@),
        r matches Err(e) ==> e == ManifestError::InvalidSection,
        r matches Ok(x) ==> (doc@ is Mapping ==> x@ is Mapping && members_set_exactly(
            doc@->Mapping_0,
            x@->Mapping_0,
            prefix@,
            version@,
        )),
{
    proof {
        if rewritten(doc@, prefix@, version@) is Some {
            lemma_rewrite_sets_prefixed_entries(doc@, prefix@, version@);
        }
    }
    match doc {
        Document::Other(v) => Ok(Document::Other(v)),
        Document::Mapping(ms) => {
            let ghost views = members_view(ms@);
            if has_invalid_member(&ms) {
                return Err(ManifestError::InvalidSection);
            }
            let ghost orig = ms@;
            let mut rest = ms;
            let mut out: Vec<(String, Member)> = Vec::new();
            while rest.len() > 0
                invariant
                    views == members_view(orig),
                    !has_invalid_section(views),
                    out.len() + rest.len() == orig.len(),
                    rest@ == orig.subrange(out.len() as int, orig.len() as int),
                    forall|j: int|
                        0 <= j < out.len() ==> member_view(#[trigger] out@[j]) == rewrite_member(
                            member_view(orig[j]),
                            prefix@,
                            version@,
                        ),
                decreases rest.len(),
            {
                let ghost j = out.len() as int;
                let (k, m) = rest.remove(0);
                assert(orig[j] == (k, m));
                if is_section_key(k.as_str()) {
                    match m {
                        Member::Mapping(es) => {
                            let es2 = rewrite_entry_list(es, prefix, version);
                            out.push((k, Member::Mapping(es2)));
                        },
                        Member::Other(v) => {
                            assert(is_invalid_section(views[j]));
                            out.push((k, Member::Other(v)));
                        },
                    }
                } else {
                    out.push((k, m));
                }
            }
            let r = Document::Mapping(out);
            assert(members_view(out@) =~= views.map_values(
                |m: (Seq<char>, MemberView)| rewrite_member(m, prefix@, version@),
            ));
            Ok(r)
        },
    }
}

/// What rewriting the manifest `text` gives: the parse failure, the
/// sub-mapping failure, or the rendered rewritten document and one newline.
pub open spec fn rewrite_outcome(
    text: Seq<char>,
    prefix: Seq<char>,
    version: Seq<char>,
    r: Result<Seq<char>, ManifestError>,
) -> bool {
    match parsed_manifest(text) {
        None => r == Err::<Seq<char>, ManifestError>(ManifestError::ParseError),
        Some(d) => match rewritten(d, prefix, version) {
            None => r == Err::<Seq<char>, ManifestError>(ManifestError::InvalidSection),
            Some(d2) => r == Ok::<Seq<char>, ManifestError>(pretty_manifest(d2) + "\n"@),
        },
    }
}

pub open spec fn result_view(r: Result<String, ManifestError>) -> Result<Seq<char>, ManifestError> {
    match r {
        Ok(s) => Ok(s@),
        Err(e) => Err(e),
    }
}

/// Rewrites one manifest text: every entry of `dependencies` and
/// `devDependencies` whose name starts with `prefix` gets the value `version`,
/// and the document is rendered back, indented, with a trailing newline.
pub fn rewrite_manifest(text: &str, prefix: &str, version: &str) -> (r: Result<String, ManifestError>)
    ensures
        rewrite_outcome(text@, prefix@, version@, result_view(r)),
{
    let doc = match parse_document(text) {
        Ok(d) => d,
        Err(_) => return Err(ManifestError::ParseError),
    };
    let doc = match rewrite_document(doc, prefix, version) {
        Ok(d) => d,
        Err(e) => return Err(e),
    };
    let mut out = match render_document(doc) {
        Ok(s) => s,
        Err(_) => String::new(),
    };
    out.append("\n");
    Ok(out)
}

/// The manifest `text` parses and none of its sub-mapping members holds
/// something other than an object.
pub open spec fn well_formed_manifest(text: Seq<char>, prefix: Seq<char>, version: Seq<char>) -> bool {
    parsed_manifest(text) matches Some(d) && rewritten(d, prefix, version) is Some
}

/// Rewrites every manifest text in turn and stops at the first failure.
pub fn rewrite_manifests(texts: &Vec<String>, prefix: &str, version: &str) -> (r: Result<
    Vec<String>,
    ManifestError,
>)
    ensures
        r matches Ok(out) ==> out.len() == texts.len() && forall|i: int|
            0 <= i < texts.len() ==> rewrite_outcome(
                #[trigger] texts@[i]@,
                prefix@,
                version@,
                Ok(out@[i]@),
            ),
        r matches Err(e) ==> exists|i: int|
            0 <= i < texts.len() && rewrite_outcome(#[trigger] texts@[i]@, prefix@, version@, Err(e))
                && forall|j: int|
                0 <= j < i ==> well_formed_manifest(#[trigger] texts@[j]@, prefix@, version@),
        r is Ok <==> forall|i: int|
            0 <= i < texts.len() ==> well_formed_manifest(#[trigger] texts@[i]@, prefix@, version@),
        texts.len() == 0 ==> (r matches Ok(out) && out.len() == 0),
{
    let mut out: Vec<String> = Vec::new();
    let mut i: usize = 0;
    while i < texts.len()
        invariant
            i <= texts.len(),
            out.len() == i,
            forall|j: int|
                0 <= j < i ==> rewrite_outcome(#[trigger] texts@[j]@, prefix@, version@, Ok(out@[j]@)),
            forall|j: int| 0 <= j < i ==> well_formed_manifest(#[trigger] texts@[j]@, prefix@, version@),
        decreases texts.len() - i,
    {
        match rewrite_manifest(texts[i].as_str(), prefix, version) {
            Ok(s) => out.push(s),
            Err(e) => {
                assert(rewrite_outcome(texts@[i as int]@, prefix@, version@, Err(e)));
                assert(!well_formed_manifest(texts@[i as int]@, prefix@, version@));
                return Err(e);
            },
        }
        i += 1;
    }
    Ok(out)
}

/// `es2` has the entry names of `es`, in order; those that start with
/// `prefix` hold `version`, the others their value in `es`.
pub open spec fn entries_set_exactly(
    es: Seq<(Seq<char>, EntryView)>,
    es2: Seq<(Seq<char>, EntryView)>,
    prefix: Seq<char>,
    version: Seq<char>,
) -> bool {
    &&& es2.len() == es.len()
    &&& forall|k: int|
        0 <= k < es.len() ==> (#[trigger] es2[k]).0 == es[k].0 && es2[k].1 == if has_prefix(
            es[k].0,
            prefix,
        ) {
            EntryView::Text(version)
        } else {
            es[k].1
        }
}

/// `ms2` has the members of `ms`, in order; sub-mappings have their entries
/// set as `entries_set_exactly` says, and every other member is unchanged.
pub open spec fn members_set_exactly(
    ms: Seq<(Seq<char>, MemberView)>,
    ms2: Seq<(Seq<char>, MemberView)>,
    prefix: Seq<char>,
    version: Seq<char>,
) -> bool {
    &&& ms2.len() == ms.len()
    &&& forall|i: int|
        0 <= i < ms.len() ==> {
            &&& (#[trigger] ms2[i]).0 == ms[i].0
            &&& (is_section(ms[i].0) && ms[i].1 is Mapping) ==> (ms2[i].1 is Mapping
                && entries_set_exactly(ms[i].1->Mapping_0, ms2[i].1->Mapping_0, prefix, version))
            &&& !is_section(ms[i].0) ==> ms2[i] == ms[i]
        }
}

/// Every entry of a sub-mapping whose name starts with the prefix ends up
/// holding the replacement version, and every other entry, in either
/// sub-mapping or elsewhere, keeps its value.
pub proof fn lemma_rewrite_sets_prefixed_entries(
    d: DocumentView,
    prefix: Seq<char>,
    version: Seq<char>,
)
    requires
        rewritten(d, prefix, version) is Some,
    ensures
        d is Mapping ==> (rewritten(d, prefix, version)->0 is Mapping && members_set_exactly(
            d->Mapping_0,
            rewritten(d, prefix, version)->0->Mapping_0,
            prefix,
            version,
        )),
        d is Other ==> rewritten(d, prefix, version) == Some(d),
{
}

/// Rewriting an already rewritten document with the same prefix and version
/// changes nothing.
pub proof fn lemma_rewrite_idempotent(d: DocumentView, prefix: Seq<char>, version: Seq<char>)
    requires
        rewritten(d, prefix, version) is Some,
    ensures
        rewritten(rewritten(d, prefix, version)->0, prefix, version) == rewritten(d, prefix, version),
{
    if let DocumentView::Mapping(ms) = d {
        let f = |m: (Seq<char>, MemberView)| rewrite_member(m, prefix, version);
        let ms2 = ms.map_values(f);
        assert forall|i: int| 0 <= i < ms2.len() implies !is_invalid_section(#[trigger] ms2[i]) by {
            assert(!is_invalid_section(ms[i]));
        }
        assert forall|i: int| 0 <= i < ms2.len() implies #[trigger] rewrite_member(ms2[i], prefix, version) == ms2[i] by {
            if let MemberView::Mapping(es) = ms[i].1 {
                if is_section(ms[i].0) {
                    let es2 = rewrite_entries(es, prefix, version);
                    assert(rewrite_entries(es2, prefix, version) =~= es2);
                }
            }
        }
        assert(ms2.map_values(f) =~= ms2);
    }
}

/// Member names, their order and nesting, members other than the two
/// sub-mappings, and the entry names inside the sub-mappings are the same
/// after a rewrite.
pub proof fn lemma_rewrite_keeps_structure(d: DocumentView, prefix: Seq<char>, version: Seq<char>)
    requires
        rewritten(d, prefix, version) is Some,
    ensures
        d is Mapping ==> ({
            let ms = d->Mapping_0;
            let ms2 = rewritten(d, prefix, version)->0->Mapping_0;
            &&& rewritten(d, prefix, version)->0 is Mapping
            &&& ms2.map_values(|m: (Seq<char>, MemberView)| m.0) == ms.map_values(
                |m: (Seq<char>, MemberView)| m.0,
            )
            &&& forall|i: int| 0 <= i < ms.len() ==> ((#[trigger] ms2[i]).1 is Mapping <==> ms[i].1 is Mapping)
        }),
{
    if let DocumentView::Mapping(ms) = d {
        let ms2 = ms.map_values(|m: (Seq<char>, MemberView)| rewrite_member(m, prefix, version));
        assert(ms2.map_values(|m: (Seq<char>, MemberView)| m.0) =~= ms.map_values(
            |m: (Seq<char>, MemberView)| m.0,
        ));
    }
}

/// Where the text that one rewrite produced reads back as the document it was
/// rendered from, rewriting that text again gives the same text.
pub proof fn lemma_rewrite_text_idempotent(
    text: Seq<char>,
    prefix: Seq<char>,
    version: Seq<char>,
    out: Seq<char>,
    again: Result<Seq<char>, ManifestError>,
)
    requires
        rewrite_outcome(text, prefix, version, Ok(out)),
        parsed_manifest(out) == rewritten(parsed_manifest(text)->0, prefix, version),
        rewrite_outcome(out, prefix, version, again),
    ensures
        again == Ok::<Seq<char>, ManifestError>(out),
{
    lemma_rewrite_idempotent(parsed_manifest(text)->0, prefix, version);
}

} // verus!
