use vstd::prelude::*;
use crate::filters::{is_image, is_image_path};

verus! {

/// The files among `files` that are images (`images == true`) or that are
/// not (`images == false`), in their original order.
pub open spec fn files_of_kind(files: Seq<Seq<char>>, images: bool) -> Seq<Seq<char>>
    decreases files.len(),
{
    if files.len() == 0 {
        seq![]
    } else {
        let prev = files_of_kind(files.drop_last(), images);
        if is_image_path(files.last()) == images {
            prev.push(files.last())
        } else {
            prev
        }
    }
}

/// Each file lands in exactly one of the two lists.
pub proof fn lemma_partition_len(files: Seq<Seq<char>>)
    ensures
        files_of_kind(files, true).len() + files_of_kind(files, false).len() == files.len(),
    decreases files.len(),
{
    if files.len() > 0 {
        lemma_partition_len(files.drop_last());
    }
}

/// Every file listed for a kind has that kind and comes from `files`.
pub proof fn lemma_partition_members(files: Seq<Seq<char>>, images: bool, x: Seq<char>)
    requires
        files_of_kind(files, images).contains(x),
    ensures
        is_image_path(x) == images,
        files.contains(x),
    decreases files.len(),
{
    let prev = files_of_kind(files.drop_last(), images);
    let k = choose|k: int|
        0 <= k < files_of_kind(files, images).len() && files_of_kind(files, images)[k] == x;
    if k < prev.len() {
        assert(prev[k] == x);
        lemma_partition_members(files.drop_last(), images, x);
        let w = choose|w: int| 0 <= w < files.drop_last().len() && files.drop_last()[w] == x;
        assert(files[w] == x);
    } else {
        assert(files[files.len() - 1] == x);
    }
}

/// The files of a project, split into images and all other files.
pub struct Paths {
    pub images: Vec<String>,
    pub others: Vec<String>,
}

impl Paths {
    /// Splits the project's files into images and other files, keeping their order.
    pub fn from_files(files: &Vec<String>) -> (r: Paths)
        ensures
            r.images.deep_view() == files_of_kind(files.deep_view(), true),
            r.others.deep_view() == files_of_kind(files.deep_view(), false),
            r.images@.len() + r.others@.len() == files@.len(),
    {
        let ghost fv = files.deep_view();
        let mut images: Vec<String> = Vec::new();
        let mut others: Vec<String> = Vec::new();
        let n = files.len();
        let mut i: usize = 0;
        while i < n
            invariant
                n == files@.len(),
                fv == files.deep_view(),
                i <= n,
                images.deep_view() == files_of_kind(fv.take(i as int), true),
                others.deep_view() == files_of_kind(fv.take(i as int), false),
            decreases n - i,
        {
            assert(fv.take(i + 1).drop_last() =~= fv.take(i as int));
            let ghost bi = images.deep_view();
            let ghost bo = others.deep_view();
            let path = files[i].clone();
            if is_image(path.as_str()) {
                images.push(path);
                assert(images.deep_view() =~= bi.push(fv[i as int]));
            } else {
                others.push(path);
                assert(others.deep_view() =~= bo.push(fv[i as int]));
            }
            i = i + 1;
        }
        assert(fv.take(n as int) =~= fv);
        proof {
            lemma_partition_len(fv);
        }
        Paths { images, others }
    }
}

} // verus!
