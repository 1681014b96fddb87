//! The annotation itself: a module gets one custom section of a given name,
//! and keeps the one it has.

use crate::wasm::{
    custom_names, custom_section_names, insert_custom_first, module_encoding, module_sections,
    sections_encoding, sections_writable, wasm_header, SectionView,
};
use parity_wasm::elements::Module;
use vstd::prelude::*;

verus! {

/// Whether a section is a custom section of the given name.
pub open spec fn is_custom_named(section: SectionView, name: Seq<char>) -> bool {
    section matches SectionView::Custom { name: n, .. } && n == name
}

/// Whether a list of sections holds a custom section of the given name.
pub open spec fn has_custom(s: Seq<SectionView>, name: Seq<char>) -> bool {
    exists|i: int| 0 <= i < s.len() && is_custom_named(#[trigger] s[i], name)
}

/// The sections of a module after it was annotated: as they were where a
/// custom section of that name is among them, and else with a new one in
/// front.
pub open spec fn annotated(s: Seq<SectionView>, name: Seq<char>, payload: Seq<u8>) -> Seq<
    SectionView,
> {
    if has_custom(s, name) {
        s
    } else {
        seq![(SectionView::Custom { name, payload })] + s
    }
}

/// A name is among the names of the custom sections exactly when a custom
/// section of the list has it.
pub proof fn custom_names_hold(s: Seq<SectionView>, name: Seq<char>)
    ensures
        custom_names(s).contains(name) <==> has_custom(s, name),
    decreases s.len(),
{
    if s.len() > 0 {
        let front = s.drop_last();
        custom_names_hold(front, name);
        if has_custom(s, name) {
            let i = choose|i: int| 0 <= i < s.len() && is_custom_named(#[trigger] s[i], name);
            if i < s.len() - 1 {
                assert(is_custom_named(front[i], name));
                let k = choose|k: int|
                    0 <= k < custom_names(front).len() && custom_names(front)[k] == name;
                assert(custom_names(s)[k] == name);
            } else {
                assert(custom_names(s).last() == name);
            }
        }
        if custom_names(s).contains(name) {
            let k = choose|k: int| 0 <= k < custom_names(s).len() && custom_names(s)[k] == name;
            if k < custom_names(front).len() {
                assert(custom_names(front)[k] == name);
                let i = choose|i: int|
                    0 <= i < front.len() && is_custom_named(#[trigger] front[i], name);
                assert(is_custom_named(s[i], name));
            } else {
                assert(is_custom_named(s[s.len() - 1], name));
            }
        }
    }
}

/// Tells whether a module holds a custom section of the given name.
pub fn has_custom_section(m: &Module, name: &str) -> (found: bool)
    ensures
        found == has_custom(module_sections(*m), name@),
{
    let names = custom_section_names(m);
    let wanted = name.to_owned();
    proof {
        custom_names_hold(module_sections(*m), name@);
    }
    let mut i: usize = 0;
    while i < names.len()
        invariant
            i <= names.len(),
            wanted@ == name@,
            custom_names(module_sections(*m)).contains(name@) <==> has_custom(
                module_sections(*m),
                name@,
            ),
            names@.len() == custom_names(module_sections(*m)).len(),
            forall|j: int|
                0 <= j < names@.len() ==> (#[trigger] names@[j])@ == custom_names(
                    module_sections(*m),
                )[j],
            forall|j: int| 0 <= j < i ==> custom_names(module_sections(*m))[j] != name@,
        decreases names.len() - i,
    {
        if names[i] == wanted {
            assert(custom_names(module_sections(*m))[i as int] == name@);
            return true;
        }
        i += 1;
    }
    false
}

/// Makes sure that a module holds a custom section of the given name. Where
/// it holds one already, the module comes back as it was, and the payload is
/// dropped: what was written first stays. Where it holds none, a new custom
/// section with the name and the payload becomes the first section, and the
/// others follow unchanged.
pub fn annotate(m: Module, name: &str, payload: Vec<u8>) -> (r: Module)
    ensures
        module_sections(r) == annotated(module_sections(m), name@, payload@),
{
    let mut m = m;
    if !has_custom_section(&m, name) {
        insert_custom_first(&mut m, name.to_owned(), payload);
    }
    m
}

/// Annotating twice is annotating once: after the first call a custom
/// section of the name is there, so the second changes nothing, whatever its
/// payload.
pub proof fn annotate_is_idempotent(
    s: Seq<SectionView>,
    name: Seq<char>,
    first: Seq<u8>,
    second: Seq<u8>,
)
    ensures
        has_custom(annotated(s, name, first), name),
        annotated(annotated(s, name, first), name, second) == annotated(s, name, first),
{
    let once = annotated(s, name, first);
    if !has_custom(s, name) {
        assert(is_custom_named(once[0], name));
    }
}

/// Where no custom section of the name is there, annotating puts the new one
/// in front and leaves the rest as it was: the sections that were there
/// follow in their order, the new section is the only one of its name, and
/// the module is written as the header, the new section, and the bytes that
/// the old sections had before.
pub proof fn annotate_prepends(s: Seq<SectionView>, name: Seq<char>, payload: Seq<u8>)
    requires
        !has_custom(s, name),
    ensures
        annotated(s, name, payload) == seq![(SectionView::Custom { name, payload })] + s,
        annotated(s, name, payload).len() == s.len() + 1,
        forall|i: int| 0 <= i < s.len() ==> annotated(s, name, payload)[i + 1] == #[trigger] s[i],
        forall|i: int|
            0 <= i < s.len() + 1 ==> (is_custom_named(
                #[trigger] annotated(s, name, payload)[i],
                name,
            ) <==> i == 0),
        module_encoding(annotated(s, name, payload)) == wasm_header() + (SectionView::Custom {
            name,
            payload,
        }).encoding() + sections_encoding(s),
{
    let new = annotated(s, name, payload);
    assert(new.drop_first() =~= s);
    assert forall|i: int| 0 <= i < s.len() + 1 implies (is_custom_named(#[trigger] new[i], name)
        <==> i == 0) by {
        if i > 0 {
            assert(new[i] == s[i - 1]);
        }
    }
    assert(module_encoding(new) =~= wasm_header() + new[0].encoding() + sections_encoding(s));
}

/// Whether at most one section of a list is a custom section of the name.
pub open spec fn at_most_one_custom(s: Seq<SectionView>, name: Seq<char>) -> bool {
    forall|i: int, j: int|
        0 <= i < s.len() && 0 <= j < s.len() && is_custom_named(#[trigger] s[i], name)
            && is_custom_named(#[trigger] s[j], name) ==> i == j
}

/// A module with at most one custom section of the name has exactly one
/// after it was annotated.
pub proof fn annotate_leaves_one(s: Seq<SectionView>, name: Seq<char>, payload: Seq<u8>)
    requires
        at_most_one_custom(s, name),
    ensures
        has_custom(annotated(s, name, payload), name),
        at_most_one_custom(annotated(s, name, payload), name),
{
    let new = annotated(s, name, payload);
    annotate_is_idempotent(s, name, payload, payload);
    if !has_custom(s, name) {
        assert forall|i: int, j: int|
            0 <= i < new.len() && 0 <= j < new.len() && is_custom_named(#[trigger] new[i], name)
                && is_custom_named(#[trigger] new[j], name) implies i == j by {
            if i > 0 {
                assert(new[i] == s[i - 1]);
            }
            if j > 0 {
                assert(new[j] == s[j - 1]);
            }
        }
    }
}

/// A module that could be written can still be written after it was
/// annotated, where the body of the new section fits the 32 bits of its
/// length.
pub proof fn annotate_keeps_writable(s: Seq<SectionView>, name: Seq<char>, payload: Seq<u8>)
    requires
        sections_writable(s),
        (SectionView::Custom { name, payload }).writable(),
    ensures
        sections_writable(annotated(s, name, payload)),
{
    let new = annotated(s, name, payload);
    assert forall|i: int| 0 <= i < new.len() implies (#[trigger] new[i]).writable() by {
        if !has_custom(s, name) && i > 0 {
            assert(new[i] == s[i - 1]);
        }
    }
}

} // verus!
