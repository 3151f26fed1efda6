use vstd::prelude::*;
use crate::order::{TotalOrder, sort_in_place, sorted};
use crate::text::ends_with;

verus! {

broadcast use vstd::seq_lib::group_to_multiset_ensures;

/// How a directory is to be listed.
#[derive(Clone)]
pub struct ReadDirOp {
    ext: String,
}

/// An option for listing a directory.
pub enum ReadDirOption {
    /// Keep only the names that end with this text.
    WithExt(String),
}

/// The option that keeps only the names that end with `ext`.
pub fn with_ext(ext: String) -> (r: ReadDirOption)
    ensures
        r matches ReadDirOption::WithExt(e) && e@ == ext@,
{
    ReadDirOption::WithExt(ext)
}

/// The extension that the options set last, or `ext` when none sets one.
pub open spec fn ext_after(ext: Seq<char>, opts: Seq<ReadDirOption>) -> Seq<char>
    decreases opts.len(),
{
    if opts.len() == 0 {
        ext
    } else {
        match opts.last() {
            ReadDirOption::WithExt(e) => e@,
        }
    }
}

impl ReadDirOp {
    pub closed spec fn spec_ext(&self) -> Seq<char> {
        self.ext@
    }

    /// No extension: every name is kept.
    pub fn new() -> (r: ReadDirOp)
        ensures
            r.spec_ext() == Seq::<char>::empty(),
    {
        ReadDirOp { ext: String::new() }
    }

    /// Applies the options in order.
    pub fn apply_opts(&mut self, opts: Vec<ReadDirOption>)
        ensures
            final(self).spec_ext() == ext_after(old(self).spec_ext(), opts@),
    {
        let n = opts.len();
        let mut i: usize = 0;
        while i < n
            invariant
                n == opts@.len(),
                i <= n,
                self.spec_ext() == ext_after(old(self).spec_ext(), opts@.subrange(0, i as int)),
            decreases n - i,
        {
            match &opts[i] {
                ReadDirOption::WithExt(e) => {
                    self.ext = e.clone();
                },
            }
            assert(opts@.subrange(0, i + 1).last() == opts@[i as int]);
            i = i + 1;
        }
        assert(opts@.subrange(0, n as int) =~= opts@);
    }
}

/// The names that a listing keeps: the ones that end with `ext`, or all of them when
/// `ext` is empty.
pub open spec fn keeps(name: Seq<char>, ext: Seq<char>) -> bool {
    ext.len() == 0 || ext.is_suffix_of(name)
}

/// The entries of a directory listing as `read_dir` hands them out: in ascending order,
/// and, when the listing has an extension, only the names that end with it.
pub fn select_names(names: Vec<String>, op: &ReadDirOp) -> (r: Vec<String>)
    ensures
        sorted(r@),
        forall|k: int| 0 <= k < r@.len() ==> keeps(#[trigger] r@[k]@, op.spec_ext()),
        r@.to_multiset() == names@.to_multiset().filter(|s: String| keeps(s@, op.spec_ext())),
{
    let mut names = names;
    sort_in_place(&mut names);
    if op.ext.as_str().is_empty() {
        proof {
            assert(names@.to_multiset().filter(|s: String| keeps(s@, op.spec_ext()))
                =~= names@.to_multiset());
        }
        return names;
    }
    let ghost keep = |s: String| keeps(s@, op.spec_ext());
    let mut tss: Vec<String> = Vec::new();
    let n = names.len();
    let mut i: usize = 0;
    proof {
        assert(names@.subrange(0, 0).to_multiset() =~= vstd::multiset::Multiset::empty());
        assert(tss@.to_multiset() =~= names@.subrange(0, 0).to_multiset().filter(keep));
    }
    while i < n
        invariant
            n == names@.len(),
            i <= n,
            op.spec_ext().len() > 0,
            keep == (|s: String| keeps(s@, op.spec_ext())),
            sorted(names@),
            sorted(tss@),
            forall|k: int| 0 <= k < tss@.len() ==> keeps(#[trigger] tss@[k]@, op.spec_ext()),
            forall|k: int, j: int|
                0 <= k < tss@.len() && i <= j < n ==> TotalOrder::le(#[trigger] tss@[k], #[trigger] names@[j]),
            tss@.to_multiset() == names@.subrange(0, i as int).to_multiset().filter(keep),
        decreases n - i,
    {
        let ghost pre = names@.subrange(0, i as int);
        let ghost t0 = tss@;
        let x = &names[i];
        let k = ends_with(x.as_str(), op.ext.as_str());
        if k {
            tss.push(x.clone());
        }
        proof {
            broadcast use vstd::multiset::group_multiset_axioms;

            assert(names@.subrange(0, i + 1) =~= pre.push(names@[i as int]));
            let x0 = names@[i as int];
            if k {
                assert(tss@.last()@ == x0@);
                assert(tss@.to_multiset() =~= t0.to_multiset().insert(tss@.last()));
            }
            assert(pre.push(x0).to_multiset() =~= pre.to_multiset().insert(x0));
            assert(tss@.to_multiset() =~= names@.subrange(0, i + 1).to_multiset().filter(keep));
        }
        i = i + 1;
    }
    proof {
        assert(names@.subrange(0, n as int) =~= names@);
    }
    tss
}

} // verus!
