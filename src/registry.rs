//! Reading the version published under the `canary` tag from a registry's
//! package document.

use crate::manifest::{
    parse_document, same_text, Document, DocumentView, Entry, EntryView, Member, MemberView,
    entry_view, member_view, parsed_manifest,
};
use vstd::prelude::*;

verus! {

/// The first member named `key`, if any.
pub open spec fn first_member(ms: Seq<(Seq<char>, MemberView)>, key: Seq<char>) -> Option<MemberView>
    decreases ms.len(),
{
    if ms.len() == 0 {
        None
    } else if ms[0].0 == key {
        Some(ms[0].1)
    } else {
        first_member(ms.drop_first(), key)
    }
}

/// The first entry named `key`, if any.
pub open spec fn first_entry(es: Seq<(Seq<char>, EntryView)>, key: Seq<char>) -> Option<EntryView>
    decreases es.len(),
{
    if es.len() == 0 {
        None
    } else if es[0].0 == key {
        Some(es[0].1)
    } else {
        first_entry(es.drop_first(), key)
    }
}

/// The text under `dist-tags` / `canary` of a package document.
pub open spec fn canary_of(d: DocumentView) -> Option<Seq<char>> {
    match d {
        DocumentView::Mapping(ms) => match first_member(ms, "dist-tags"@) {
            Some(MemberView::Mapping(es)) => match first_entry(es, "canary"@) {
                Some(EntryView::Text(v)) => Some(v),
                _ => None,
            },
            _ => None,
        },
        DocumentView::Other(_) => None,
    }
}

proof fn lemma_first_member_step(ms: Seq<(Seq<char>, MemberView)>, key: Seq<char>, i: int)
    requires
        0 <= i < ms.len(),
        ms[i].0 != key,
    ensures
        first_member(ms.subrange(i, ms.len() as int), key) == first_member(
            ms.subrange(i + 1, ms.len() as int),
            key,
        ),
{
    assert(ms.subrange(i, ms.len() as int).drop_first() =~= ms.subrange(i + 1, ms.len() as int));
}

proof fn lemma_first_entry_step(es: Seq<(Seq<char>, EntryView)>, key: Seq<char>, i: int)
    requires
        0 <= i < es.len(),
        es[i].0 != key,
    ensures
        first_entry(es.subrange(i, es.len() as int), key) == first_entry(
            es.subrange(i + 1, es.len() as int),
            key,
        ),
{
    assert(es.subrange(i, es.len() as int).drop_first() =~= es.subrange(i + 1, es.len() as int));
}

/// The canary version recorded in a parsed package document.
pub fn canary_in(doc: &Document) -> (r: Option<String>)
    ensures
        match r {
            Some(s) => canary_of(doc@) == Some(s@),
            None => canary_of(doc@) is None,
        },
{
    let ms = match doc {
        Document::Mapping(ms) => ms,
        Document::Other(_) => return None,
    };
    let ghost mv = doc@->Mapping_0;
    assert(mv.subrange(0, mv.len() as int) =~= mv);
    let mut i: usize = 0;
    while i < ms.len()
        invariant
            doc@ == DocumentView::Mapping(mv),
            mv == crate::manifest::members_view(ms@),
            i <= ms.len(),
            first_member(mv.subrange(i as int, mv.len() as int), "dist-tags"@) == first_member(
                mv,
                "dist-tags"@,
            ),
        decreases ms.len() - i,
    {
        assert(mv[i as int] == member_view(ms@[i as int]));
        if same_text(ms[i].0.as_str(), "dist-tags") {
            assert(mv.subrange(i as int, mv.len() as int)[0] == mv[i as int]);
            let es = match &ms[i].1 {
                Member::Mapping(es) => es,
                Member::Other(_) => {
                    assert(first_member(mv, "dist-tags"@) == Some(mv[i as int].1));
                    return None;
                },
            };
            let ghost ev = crate::manifest::entries_view(es@);
            assert(ev.subrange(0, ev.len() as int) =~= ev);
            assert(first_member(mv, "dist-tags"@) == Some(MemberView::Mapping(ev)));
            let mut k: usize = 0;
            while k < es.len()
                invariant
                    doc@ == DocumentView::Mapping(mv),
                    first_member(mv, "dist-tags"@) == Some(MemberView::Mapping(ev)),
                    ev == crate::manifest::entries_view(es@),
                    k <= es.len(),
                    first_entry(ev.subrange(k as int, ev.len() as int), "canary"@) == first_entry(
                        ev,
                        "canary"@,
                    ),
                decreases es.len() - k,
            {
                assert(ev[k as int] == entry_view(es@[k as int]));
                if same_text(es[k].0.as_str(), "canary") {
                    assert(ev.subrange(k as int, ev.len() as int)[0] == ev[k as int]);
                    return match &es[k].1 {
                        Entry::Text(s) => Some(s.clone()),
                        Entry::Other(_) => None,
                    };
                }
                proof {
                    lemma_first_entry_step(ev, "canary"@, k as int);
                }
                k += 1;
            }
            return None;
        }
        proof {
            lemma_first_member_step(mv, "dist-tags"@, i as int);
        }
        i += 1;
    }
    None
}

/// The version published under the `canary` tag, read from the text of a
/// registry's package document; `None` where the text is no JSON or has no
/// such tag.
pub fn canary_version(packument: &str) -> (r: Option<String>)
    ensures
        match parsed_manifest(packument@) {
            None => r is None,
            Some(d) => match r {
                Some(s) => canary_of(d) == Some(s@),
                None => canary_of(d) is None,
            },
        },
{
    match parse_document(packument) {
        Ok(doc) => canary_in(&doc),
        Err(_) => None,
    }
}

} // verus!
