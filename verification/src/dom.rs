//! The plain document tree the parser walks: one node per markup element,
//! holding only what the pipeline reads — the lowercase tag name, the `id`
//! and `class` attributes, the rendered text, and the child elements in
//! document order.  The caller builds this tree from the raw page.

use vstd::prelude::*;

use crate::text::str_eq;

verus! {

/// One element of the document, with its children in document order.
pub struct DomNode {
    /// The lowercase tag name.
    pub name: String,
    /// The `id` attribute, when the element carries one.
    pub id: Option<String>,
    /// The `class` attribute, when the element carries one.
    pub class: Option<String>,
    /// The rendered text of the element and everything below it.
    pub text: String,
    /// The child elements, in document order.
    pub children: Vec<DomNode>,
}

/// The element carries the fixed marker that bounds the content region.
pub open spec fn is_marked(n: DomNode) -> bool {
    match n.id {
        Some(i) => i@ == "dev_page_content"@,
        None => false,
    }
}

/// The first marked element, in document order, of a forest of subtrees.
pub open spec fn first_marked_in(ns: Seq<DomNode>) -> Option<DomNode>
    decreases ns,
    via first_marked_in_decreases
{
    if ns.len() == 0 {
        None
    } else {
        let head = if is_marked(ns[0]) {
            Some(ns[0])
        } else {
            first_marked_in(ns[0].children@)
        };
        if head is Some {
            head
        } else {
            first_marked_in(ns.drop_first())
        }
    }
}

#[via_fn]
proof fn first_marked_in_decreases(ns: Seq<DomNode>) {
    if ns.len() > 0 {
        assert(decreases_to!(ns => ns[0]));
        assert(decreases_to!(ns[0] => ns[0].children));
        assert(decreases_to!(ns[0].children => ns[0].children@));
    }
}

/// The first marked element, in document order, of the whole document.
pub open spec fn first_marked(root: DomNode) -> Option<DomNode> {
    if is_marked(root) {
        Some(root)
    } else {
        first_marked_in(root.children@)
    }
}

/// The document holds the content-region marker somewhere.
pub open spec fn has_marker(root: DomNode) -> bool {
    first_marked(root) is Some
}

/// The element carries the content-region marker.
pub fn node_is_marked(n: &DomNode) -> (r: bool)
    ensures
        r == is_marked(*n),
{
    match &n.id {
        Some(i) => str_eq(i.as_str(), "dev_page_content"),
        None => false,
    }
}

/// The first marked element of a forest of subtrees, in document order.
fn find_marked_in(ns: &Vec<DomNode>) -> (r: Option<&DomNode>)
    ensures
        match r {
            Some(m) => first_marked_in(ns@) == Some(*m),
            None => first_marked_in(ns@) is None,
        },
    decreases ns@,
{
    let mut i: usize = 0;
    proof {
        assert(ns@.skip(0) =~= ns@);
    }
    while i < ns.len()
        invariant
            i <= ns@.len(),
            first_marked_in(ns@) == first_marked_in(ns@.skip(i as int)),
        decreases ns@.len() - i,
    {
        let n = &ns[i];
        if node_is_marked(n) {
            return Some(n);
        }
        proof {
            assert(decreases_to!(ns@ => ns@[i as int]));
            assert(decreases_to!(ns@[i as int] => ns@[i as int].children));
            assert(decreases_to!(ns@[i as int].children => ns@[i as int].children@));
        }
        match find_marked_in(&n.children) {
            Some(m) => {
                return Some(m);
            },
            None => {},
        }
        proof {
            assert(ns@.skip(i as int).drop_first() =~= ns@.skip(i + 1));
        }
        i += 1;
    }
    None
}

/// Locates the content region: the first element, in document order, that
/// carries the fixed marker.
pub fn find_content_region(root: &DomNode) -> (r: Option<&DomNode>)
    ensures
        match r {
            Some(m) => first_marked(*root) == Some(*m),
            None => !has_marker(*root),
        },
{
    if node_is_marked(root) {
        Some(root)
    } else {
        find_marked_in(&root.children)
    }
}

} // verus!
