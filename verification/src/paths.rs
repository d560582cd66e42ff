//! File-system paths held as text, joined the way a Unix path buffer joins a
//! component onto itself.
use vstd::prelude::*;
use crate::text::{chars_of, push_chars};

verus! {

/// `base` with `comp` joined onto it: an absolute `comp` (one starting with `/`)
/// replaces `base`; otherwise a `/` separator is added between the two unless
/// `base` is empty or already ends with one.
pub open spec fn path_joined(base: Seq<char>, comp: Seq<char>) -> Seq<char> {
    if comp.len() > 0 && comp[0] == '/' {
        comp
    } else if base.len() == 0 || base.last() == '/' {
        base + comp
    } else {
        base.push('/') + comp
    }
}

/// Joins the component `comp` onto the path `path`.
pub fn push_component(path: &mut Vec<char>, comp: &Vec<char>)
    ensures
        final(path)@ == path_joined(old(path)@, comp@),
{
    if comp.len() > 0 && comp[0] == '/' {
        let mut fresh: Vec<char> = Vec::new();
        push_chars(&mut fresh, comp);
        assert(fresh@ == comp@);
        *path = fresh;
    } else if path.len() == 0 || path[path.len() - 1] == '/' {
        push_chars(path, comp);
    } else {
        path.push('/');
        push_chars(path, comp);
    }
}

/// Joins the component `comp` onto the path `path`.
pub fn push_component_str(path: &mut Vec<char>, comp: &str)
    ensures
        final(path)@ == path_joined(old(path)@, comp@),
{
    let c = chars_of(comp);
    push_component(path, &c);
}

} // verus!
