use vstd::prelude::*;
use aho_corasick::AhoCorasick;
use crate::error::ReimgError;
use crate::matcher::{
    automaton_leftmost_first, automaton_patterns, build_standard, describe_build_error,
    find_all_match_ids, occurs_in, standard_builds,
};
use crate::pathname::{file_name_of, path_file_name};

verus! {

/// The search patterns of a list of image paths: the file name of each path
/// that has one, in order.
pub open spec fn image_patterns(images: Seq<Seq<char>>) -> Seq<Seq<char>>
    decreases images.len(),
{
    if images.len() == 0 {
        seq![]
    } else {
        let prev = image_patterns(images.drop_last());
        match path_file_name(images.last()) {
            Some(name) => prev.push(name),
            None => prev,
        }
    }
}

/// For each search pattern, the index of the image it is the file name of.
pub open spec fn image_owners(images: Seq<Seq<char>>) -> Seq<int>
    decreases images.len(),
{
    if images.len() == 0 {
        seq![]
    } else {
        let prev = image_owners(images.drop_last());
        if path_file_name(images.last()) is Some {
            prev.push(images.len() - 1)
        } else {
            prev
        }
    }
}

/// A text mentions an image when it contains the image's file name.
pub open spec fn mentions(text: Seq<char>, image: Seq<char>) -> bool {
    match path_file_name(image) {
        Some(name) => occurs_in(name, text),
        None => false,
    }
}

/// Some text mentions the image.
pub open spec fn is_referenced(image: Seq<char>, texts: Seq<Seq<char>>) -> bool {
    exists|j: int| 0 <= j < texts.len() && mentions(#[trigger] texts[j], image)
}

/// The images that no text mentions, in order.
pub open spec fn unused_images(images: Seq<Seq<char>>, texts: Seq<Seq<char>>) -> Seq<Seq<char>>
    decreases images.len(),
{
    if images.len() == 0 {
        seq![]
    } else {
        let prev = unused_images(images.drop_last(), texts);
        if is_referenced(images.last(), texts) {
            prev
        } else {
            prev.push(images.last())
        }
    }
}

/// `a` is `b` with some elements left out, the rest in the same order.
pub open spec fn is_subsequence(a: Seq<Seq<char>>, b: Seq<Seq<char>>) -> bool
    decreases b.len(),
{
    if a.len() == 0 {
        true
    } else if b.len() == 0 {
        false
    } else if a.last() == b.last() && is_subsequence(a.drop_last(), b.drop_last()) {
        true
    } else {
        is_subsequence(a, b.drop_last())
    }
}

/// An image is unused exactly when it is one of the images and no text mentions it.
pub proof fn lemma_unused_members(images: Seq<Seq<char>>, texts: Seq<Seq<char>>, x: Seq<char>)
    ensures
        unused_images(images, texts).contains(x) <==> (images.contains(x) && !is_referenced(
            x,
            texts,
        )),
    decreases images.len(),
{
    if images.len() > 0 {
        let prev = images.drop_last();
        lemma_unused_members(prev, texts, x);
        let up = unused_images(prev, texts);
        let cur = unused_images(images, texts);
        if cur.contains(x) {
            let k = choose|k: int| 0 <= k < cur.len() && cur[k] == x;
            if k < up.len() {
                assert(up[k] == x);
                let w = choose|w: int| 0 <= w < prev.len() && prev[w] == x;
                assert(images[w] == x);
            } else {
                assert(images[images.len() - 1] == x);
            }
        }
        if images.contains(x) && !is_referenced(x, texts) {
            let w = choose|w: int| 0 <= w < images.len() && images[w] == x;
            if w < images.len() - 1 {
                assert(prev[w] == x);
                let k = choose|k: int| 0 <= k < up.len() && up[k] == x;
                if !is_referenced(images.last(), texts) {
                    assert(up.push(images.last())[k] == x);
                }
            } else {
                assert(cur.last() == x);
            }
        }
    }
}

/// With no texts every image is unused.
pub proof fn lemma_no_texts_all_unused(images: Seq<Seq<char>>)
    ensures
        unused_images(images, seq![]) == images,
    decreases images.len(),
{
    if images.len() > 0 {
        lemma_no_texts_all_unused(images.drop_last());
        assert(images.drop_last().push(images.last()) =~= images);
    }
}

/// Which images are unused depends only on which texts there are, not on
/// their order or repetition.
pub proof fn lemma_unused_depends_on_text_set(
    images: Seq<Seq<char>>,
    t1: Seq<Seq<char>>,
    t2: Seq<Seq<char>>,
)
    requires
        forall|t: Seq<char>| t1.contains(t) <==> t2.contains(t),
    ensures
        unused_images(images, t1) == unused_images(images, t2),
    decreases images.len(),
{
    if images.len() > 0 {
        lemma_unused_depends_on_text_set(images.drop_last(), t1, t2);
        let x = images.last();
        if is_referenced(x, t1) {
            let j = choose|j: int| 0 <= j < t1.len() && mentions(#[trigger] t1[j], x);
            assert(t1.contains(t1[j]));
            let k = choose|k: int| 0 <= k < t2.len() && t2[k] == t1[j];
            assert(mentions(t2[k], x));
        }
        if is_referenced(x, t2) {
            let j = choose|j: int| 0 <= j < t2.len() && mentions(#[trigger] t2[j], x);
            assert(t2.contains(t2[j]));
            let k = choose|k: int| 0 <= k < t1.len() && t1[k] == t2[j];
            assert(mentions(t1[k], x));
        }
    }
}

proof fn lemma_subsequence_push(a: Seq<Seq<char>>, b: Seq<Seq<char>>, x: Seq<char>)
    requires
        is_subsequence(a, b),
    ensures
        is_subsequence(a, b.push(x)),
    decreases b.len(),
{
    let bx = b.push(x);
    assert(bx.drop_last() =~= b);
    if a.len() > 0 && !(a.last() == bx.last() && is_subsequence(a.drop_last(), b)) {
        assert(is_subsequence(a, bx.drop_last()));
    }
}

/// More texts can only mark more images used: the unused images for a larger
/// set of texts are a subsequence of those for a smaller one.
pub proof fn lemma_more_texts_fewer_unused(
    images: Seq<Seq<char>>,
    t1: Seq<Seq<char>>,
    t2: Seq<Seq<char>>,
)
    requires
        forall|t: Seq<char>| t1.contains(t) ==> t2.contains(t),
    ensures
        is_subsequence(unused_images(images, t2), unused_images(images, t1)),
    decreases images.len(),
{
    if images.len() > 0 {
        let prev = images.drop_last();
        lemma_more_texts_fewer_unused(prev, t1, t2);
        let x = images.last();
        let u1 = unused_images(prev, t1);
        let u2 = unused_images(prev, t2);
        if is_referenced(x, t1) {
            let j = choose|j: int| 0 <= j < t1.len() && mentions(#[trigger] t1[j], x);
            assert(t1.contains(t1[j]));
            let k = choose|k: int| 0 <= k < t2.len() && t2[k] == t1[j];
            assert(mentions(t2[k], x));
        }
        if !is_referenced(x, t1) {
            if is_referenced(x, t2) {
                lemma_subsequence_push(u2, u1, x);
            } else {
                let a = u2.push(x);
                let b = u1.push(x);
                assert(a.drop_last() =~= u2);
                assert(b.drop_last() =~= u1);
            }
        }
    }
}

/// The facts that tie patterns and owners to the images.
proof fn lemma_owners(images: Seq<Seq<char>>)
    ensures
        image_owners(images).len() == image_patterns(images).len(),
        image_patterns(images).len() <= images.len(),
        forall|k: int|
            0 <= k < image_owners(images).len() ==> 0 <= #[trigger] image_owners(images)[k]
                < images.len() && path_file_name(images[image_owners(images)[k]]) == Some(
                image_patterns(images)[k],
            ),
        forall|q: int|
            0 <= q < images.len() && #[trigger] path_file_name(images[q]) is Some ==> exists|k: int|
                0 <= k < image_owners(images).len() && #[trigger] image_owners(images)[k] == q,
    decreases images.len(),
{
    if images.len() > 0 {
        let prev = images.drop_last();
        lemma_owners(prev);
        let po = image_owners(prev);
        let pp = image_patterns(prev);
        let o = image_owners(images);
        let p = image_patterns(images);
        assert forall|k: int| 0 <= k < o.len() implies 0 <= #[trigger] o[k] < images.len()
            && path_file_name(images[o[k]]) == Some(p[k]) by {
            if k < po.len() {
                assert(o[k] == po[k]);
                assert(p[k] == pp[k]);
                assert(images[po[k]] == prev[po[k]]);
            }
        }
        assert forall|q: int|
            0 <= q < images.len() && #[trigger] path_file_name(images[q]) is Some implies exists|k: int|
                0 <= k < o.len() && #[trigger] o[k] == q by {
            if q < images.len() - 1 {
                assert(prev[q] == images[q]);
                assert(path_file_name(prev[q]) is Some);
                let k = choose|k: int| 0 <= k < po.len() && #[trigger] po[k] == q;
                assert(o[k] == q);
            } else {
                assert(o[o.len() - 1] == q);
            }
        }
    }
}

/// Finds the images that no text file of a project refers to by file name.
pub struct Analyzer {
    images: Vec<String>,
    patterns: Vec<String>,
    owners: Vec<usize>,
    ac: AhoCorasick,
}

impl Analyzer {
    #[verifier::type_invariant]
    spec fn well_formed(self) -> bool {
        &&& self.patterns.deep_view() == image_patterns(self.images.deep_view())
        &&& self.owners@.len() == image_owners(self.images.deep_view()).len()
        &&& forall|k: int|
            0 <= k < self.owners@.len() ==> #[trigger] self.owners@[k] as int == image_owners(
                self.images.deep_view(),
            )[k]
        &&& automaton_patterns(self.ac) == self.patterns.deep_view()
        &&& !automaton_leftmost_first(self.ac)
    }

    /// The image paths the analyzer was built from.
    pub closed spec fn images(self) -> Seq<Seq<char>> {
        self.images.deep_view()
    }

    /// Builds the search automaton over the file names of the images.
    pub fn new(images: Vec<String>) -> (r: Result<Analyzer, ReimgError>)
        ensures
            (r is Ok) == standard_builds(image_patterns(images.deep_view())),
            r matches Ok(a) ==> a.images() == images.deep_view(),
            r matches Err(e) ==> e is PatternSet,
    {
        let ghost iv = images.deep_view();
        let mut patterns: Vec<String> = Vec::new();
        let mut owners: Vec<usize> = Vec::new();
        let n = images.len();
        let mut i: usize = 0;
        while i < n
            invariant
                n == images@.len(),
                iv == images.deep_view(),
                i <= n,
                patterns.deep_view() == image_patterns(iv.take(i as int)),
                owners@.len() == image_owners(iv.take(i as int)).len(),
                forall|k: int|
                    0 <= k < owners@.len() ==> #[trigger] owners@[k] as int == image_owners(
                        iv.take(i as int),
                    )[k],
            decreases n - i,
        {
            let ghost before = patterns.deep_view();
            let ghost bo = owners@;
            assert(iv.take(i + 1).drop_last() =~= iv.take(i as int));
            assert(iv.take(i + 1).last() == iv[i as int]);
            match file_name_of(images[i].as_str()) {
                Some(name) => {
                    patterns.push(name);
                    owners.push(i);
                    assert(patterns.deep_view() =~= before.push(name@));
                },
                None => {},
            }
            i = i + 1;
        }
        assert(iv.take(n as int) =~= iv);
        match build_standard(&patterns) {
            Ok(ac) => Ok(Analyzer { images, patterns, owners, ac }),
            Err(e) => Err(ReimgError::PatternSet(describe_build_error(&e))),
        }
    }

    /// Returns the images whose file name occurs in none of the texts (the
    /// contents of the project's readable text files), in their order.
    pub fn find_unused(&self, texts: &Vec<String>) -> (r: Vec<String>)
        ensures
            r.deep_view() == unused_images(self.images(), texts.deep_view()),
            forall|x: Seq<char>|
                #[trigger] r.deep_view().contains(x) <==> (self.images().contains(x)
                    && !is_referenced(x, texts.deep_view())),
    {
        proof {
            use_type_invariant(self);
        }
        let ghost iv = self.images.deep_view();
        let ghost tv = texts.deep_view();
        let ghost pats = self.patterns.deep_view();
        proof {
            lemma_owners(iv);
            lemma_unused_members(iv, tv, Seq::empty());
        }
        let n = self.images.len();
        if n == 0 {
            let r: Vec<String> = Vec::new();
            assert(r.deep_view() =~= Seq::<Seq<char>>::empty());
            proof {
                assert forall|x: Seq<char>| #[trigger] r.deep_view().contains(x) <==> (iv.contains(x)
                    && !is_referenced(x, tv)) by {
                    lemma_unused_members(iv, tv, x);
                }
            }
            return r;
        }
        let mut matched: Vec<bool> = Vec::new();
        let mut k: usize = 0;
        while k < n
            invariant
                k <= n,
                matched@.len() == k,
                forall|q: int| 0 <= q < k ==> !matched@[q],
            decreases n - k,
        {
            matched.push(false);
            k = k + 1;
        }
        let m = texts.len();
        let mut j: usize = 0;
        while j < m
            invariant
                n == self.images@.len(),
                iv == self.images.deep_view(),
                m == texts@.len(),
                tv == texts.deep_view(),
                pats == self.patterns.deep_view(),
                pats == image_patterns(iv),
                pats.len() <= n,
                self.owners@.len() == pats.len(),
                forall|k: int|
                    0 <= k < self.owners@.len() ==> #[trigger] self.owners@[k] as int
                        == image_owners(iv)[k],
                image_owners(iv).len() == pats.len(),
                forall|k: int|
                    0 <= k < image_owners(iv).len() ==> 0 <= #[trigger] image_owners(iv)[k] < iv.len()
                        && path_file_name(iv[image_owners(iv)[k]]) == Some(pats[k]),
                forall|q: int|
                    0 <= q < iv.len() && #[trigger] path_file_name(iv[q]) is Some ==> exists|k: int|
                        0 <= k < image_owners(iv).len() && #[trigger] image_owners(iv)[k] == q,
                automaton_patterns(self.ac) == pats,
                !automaton_leftmost_first(self.ac),
                j <= m,
                matched@.len() == n,
                forall|q: int|
                    0 <= q < n ==> matched@[q] == is_referenced(iv[q], tv.take(j as int)),
            decreases m - j,
        {
            let ids = find_all_match_ids(&self.ac, texts[j].as_str());
            let ghost text = tv[j as int];
            let mut t: usize = 0;
            while t < ids.len()
                invariant
                    n == self.images@.len(),
                    iv == self.images.deep_view(),
                    self.owners@.len() == pats.len(),
                    forall|k: int|
                        0 <= k < self.owners@.len() ==> #[trigger] self.owners@[k] as int
                            == image_owners(iv)[k],
                    image_owners(iv).len() == pats.len(),
                    forall|k: int|
                        0 <= k < image_owners(iv).len() ==> 0 <= #[trigger] image_owners(iv)[k]
                            < iv.len(),
                    forall|i: int| 0 <= i < ids@.len() ==> (#[trigger] ids@[i] as int) < pats.len(),
                    t <= ids@.len(),
                    matched@.len() == n,
                    forall|q: int|
                        0 <= q < n ==> matched@[q] == (is_referenced(iv[q], tv.take(j as int))
                            || exists|u: int|
                            0 <= u < t && #[trigger] image_owners(iv)[ids@[u] as int] == q),
                decreases ids@.len() - t,
            {
                let id = ids[t];
                let owner = self.owners[id];
                matched.set(owner, true);
                proof {
                    assert(owner as int == image_owners(iv)[id as int]);
                    assert forall|q: int| 0 <= q < n implies matched@[q] == (is_referenced(
                        iv[q],
                        tv.take(j as int),
                    ) || exists|u: int|
                        0 <= u < t + 1 && #[trigger] image_owners(iv)[ids@[u] as int] == q) by {
                        if q == owner as int {
                            assert(image_owners(iv)[ids@[t as int] as int] == q);
                        }
                    }
                }
                t = t + 1;
            }
            proof {
                assert forall|q: int| 0 <= q < n implies matched@[q] == is_referenced(
                    iv[q],
                    tv.take(j + 1),
                ) by {
                    let prev = tv.take(j as int);
                    let next = tv.take(j + 1);
                    assert(next[j as int] == text);
                    if is_referenced(iv[q], prev) {
                        let w = choose|w: int| 0 <= w < prev.len() && mentions(#[trigger] prev[w], iv[q]);
                        assert(next[w] == prev[w]);
                    }
                    if exists|u: int|
                        0 <= u < ids@.len() && #[trigger] image_owners(iv)[ids@[u] as int] == q {
                        let u = choose|u: int|
                            0 <= u < ids@.len() && #[trigger] image_owners(iv)[ids@[u] as int] == q;
                        let kk = ids@[u] as int;
                        assert(ids@.contains(kk as usize));
                        assert(occurs_in(pats[kk], text));
                        assert(path_file_name(iv[q]) == Some(pats[kk]));
                        assert(mentions(next[j as int], iv[q]));
                    }
                    if is_referenced(iv[q], next) {
                        let w = choose|w: int| 0 <= w < next.len() && mentions(#[trigger] next[w], iv[q]);
                        if w < j {
                            assert(prev[w] == next[w]);
                        } else {
                            assert(path_file_name(iv[q]) is Some);
                            let kk = choose|kk: int|
                                0 <= kk < image_owners(iv).len() && #[trigger] image_owners(iv)[kk] == q;
                            assert(path_file_name(iv[q]) == Some(pats[kk]));
                            assert(occurs_in(pats[kk], text));
                            assert(ids@.contains(kk as usize));
                            let u = choose|u: int| 0 <= u < ids@.len() && ids@[u] == kk as usize;
                            assert(ids@[u] as int == kk);
                            assert(image_owners(iv)[ids@[u] as int] == q);
                        }
                    }
                }
            }
            j = j + 1;
        }
        assert(tv.take(m as int) =~= tv);
        let mut r: Vec<String> = Vec::new();
        let mut i: usize = 0;
        while i < n
            invariant
                n == self.images@.len(),
                iv == self.images.deep_view(),
                i <= n,
                matched@.len() == n,
                forall|q: int| 0 <= q < n ==> matched@[q] == is_referenced(iv[q], tv),
                r.deep_view() == unused_images(iv.take(i as int), tv),
            decreases n - i,
        {
            let ghost before = r.deep_view();
            assert(iv.take(i + 1).drop_last() =~= iv.take(i as int));
            assert(iv.take(i + 1).last() == iv[i as int]);
            if !matched[i] {
                r.push(self.images[i].clone());
                assert(r.deep_view() =~= before.push(iv[i as int]));
            }
            i = i + 1;
        }
        assert(iv.take(n as int) =~= iv);
        proof {
            assert forall|x: Seq<char>| #[trigger] r.deep_view().contains(x) <==> (iv.contains(x)
                && !is_referenced(x, tv)) by {
                lemma_unused_members(iv, tv, x);
            }
        }
        r
    }
}

} // verus!
