//! The source files whose translation calls the rules read.
use vstd::prelude::*;

use crate::lint::context::RuleContext;
use crate::output::strings_view;
use crate::text::{chars_of, ends_with, ends_with_str, starts_with, starts_with_str};

verus! {

/// A TypeScript or JavaScript file under `src/`, outside `src/i18n/`.
pub open spec fn is_i18n_source(file: Seq<char>) -> bool {
    starts_with(file, "src/"@) && !starts_with(file, "src/i18n/"@) && (ends_with(file, ".ts"@)
        || ends_with(file, ".tsx"@) || ends_with(file, ".js"@) || ends_with(file, ".jsx"@))
}

/// The source files among `paths`, in order.
pub open spec fn sources_of(paths: Seq<Seq<char>>) -> Seq<Seq<char>>
    decreases paths.len(),
{
    if paths.len() == 0 {
        Seq::empty()
    } else if is_i18n_source(paths.last()) {
        sources_of(paths.drop_last()).push(paths.last())
    } else {
        sources_of(paths.drop_last())
    }
}

/// Whether `file` is a source file the rules read.
pub fn is_source_file(file: &str) -> (res: bool)
    ensures
        res == is_i18n_source(file@),
{
    let f = chars_of(file);
    starts_with_str(&f, "src/") && !starts_with_str(&f, "src/i18n/") && (ends_with_str(&f, ".ts")
        || ends_with_str(&f, ".tsx") || ends_with_str(&f, ".js") || ends_with_str(&f, ".jsx"))
}

/// The source files of the project, in the order of the walk.
pub fn source_files(context: &RuleContext) -> (res: Vec<String>)
    ensures
        strings_view(res@) == sources_of(strings_view(context.project.files@)),
{
    let paths = &context.project.files;
    let ghost pv = strings_view(paths@);
    let mut out: Vec<String> = Vec::new();
    let mut i: usize = 0;
    assert(pv.take(0) =~= Seq::<Seq<char>>::empty());
    assert(strings_view(out@) =~= Seq::<Seq<char>>::empty());
    while i < paths.len()
        invariant
            i <= paths@.len(),
            pv == strings_view(paths@),
            paths == &context.project.files,
            strings_view(out@) == sources_of(pv.take(i as int)),
        decreases paths@.len() - i,
    {
        assert(pv.take(i + 1).drop_last() =~= pv.take(i as int));
        assert(pv.take(i + 1).last() == paths@[i as int]@);
        if is_source_file(paths[i].as_str()) {
            let f = paths[i].clone();
            let ghost before = strings_view(out@);
            out.push(f);
            assert(strings_view(out@) =~= before.push(f@));
        }
        i = i + 1;
    }
    assert(pv.take(pv.len() as int) =~= pv);
    out
}

} // verus!
