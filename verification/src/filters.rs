use vstd::prelude::*;
use crate::pathname::{extension_of, path_extension};
use crate::text::{ascii_lower, ascii_lowercase, eq_ignore_ascii_case, same_text_ignore_ascii_case};

verus! {

/// The extensions that mark a file as an image, compared without ASCII case.
pub open spec fn is_image_extension(ext: Seq<char>) -> bool {
    ||| eq_ignore_ascii_case(ext, "jpg"@)
    ||| eq_ignore_ascii_case(ext, "jpeg"@)
    ||| eq_ignore_ascii_case(ext, "png"@)
    ||| eq_ignore_ascii_case(ext, "webp"@)
    ||| eq_ignore_ascii_case(ext, "avif"@)
}

/// A path names an image when its file name has an image extension.
pub open spec fn is_image_path(path: Seq<char>) -> bool {
    match path_extension(path) {
        Some(ext) => is_image_extension(ext),
        None => false,
    }
}

/// Whether an extension marks an image does not depend on the case of its ASCII letters.
pub proof fn lemma_image_extension_ignores_case(a: Seq<char>, b: Seq<char>)
    requires
        eq_ignore_ascii_case(a, b),
    ensures
        is_image_extension(a) == is_image_extension(b),
{
    assert forall|t: Seq<char>| eq_ignore_ascii_case(a, t) == eq_ignore_ascii_case(b, t) by {
        if eq_ignore_ascii_case(a, t) {
            assert forall|i: int| 0 <= i < b.len() implies ascii_lower(#[trigger] b[i]) == ascii_lower(t[i]) by {
                assert(ascii_lower(a[i]) == ascii_lower(b[i]));
            }
        }
        if eq_ignore_ascii_case(b, t) {
            assert forall|i: int| 0 <= i < a.len() implies ascii_lower(#[trigger] a[i]) == ascii_lower(t[i]) by {
                assert(ascii_lower(a[i]) == ascii_lower(b[i]));
            }
        }
    }
}

/// Law: exactly the extensions `jpg`, `jpeg`, `png`, `webp` and `avif`, in any
/// ASCII case, mark an image; `gif`, `svg` and the empty extension do not.
pub proof fn law_image_extensions(ext: Seq<char>)
    ensures
        is_image_extension(ext) <==> (ascii_lowercase(ext) == seq!['j', 'p', 'g'] || ascii_lowercase(
            ext,
        ) == seq!['j', 'p', 'e', 'g'] || ascii_lowercase(ext) == seq!['p', 'n', 'g']
            || ascii_lowercase(ext) == seq!['w', 'e', 'b', 'p'] || ascii_lowercase(ext) == seq![
            'a',
            'v',
            'i',
            'f',
        ]),
        !is_image_extension(seq!['g', 'i', 'f']),
        !is_image_extension(seq!['s', 'v', 'g']),
        !is_image_extension(Seq::<char>::empty()),
{
    reveal_strlit("jpg");
    reveal_strlit("jpeg");
    reveal_strlit("png");
    reveal_strlit("webp");
    reveal_strlit("avif");
    let lits = seq![seq!['j', 'p', 'g'], seq!['j', 'p', 'e', 'g'], seq!['p', 'n', 'g'], seq!['w', 'e', 'b', 'p'], seq!['a', 'v', 'i', 'f']];
    assert("jpg"@ =~= lits[0]);
    assert("jpeg"@ =~= lits[1]);
    assert("png"@ =~= lits[2]);
    assert("webp"@ =~= lits[3]);
    assert("avif"@ =~= lits[4]);
    assert forall|t: Seq<char>| #[trigger] eq_ignore_ascii_case(ext, t) && ascii_lowercase(t) == t
        implies ascii_lowercase(ext) == t by {
        assert forall|i: int| 0 <= i < t.len() implies ascii_lowercase(ext)[i] == t[i] by {
            assert(ascii_lowercase(t)[i] == t[i]);
        }
        assert(ascii_lowercase(ext) =~= t);
    }
    assert forall|t: Seq<char>| ascii_lowercase(ext) == t && ascii_lowercase(t) == t implies #[trigger] eq_ignore_ascii_case(
        ext,
        t,
    ) by {
        assert forall|i: int| 0 <= i < ext.len() implies ascii_lower(#[trigger] ext[i]) == ascii_lower(t[i]) by {
            assert(ascii_lowercase(ext)[i] == t[i]);
            assert(ascii_lowercase(t)[i] == t[i]);
        }
    }
    assert forall|k: int| 0 <= k < 5 implies ascii_lowercase(#[trigger] lits[k]) == lits[k] by {
        assert(ascii_lowercase(lits[k]) =~= lits[k]);
    }
    assert(ascii_lowercase(lits[0]) == lits[0]);
    assert(ascii_lowercase(lits[1]) == lits[1]);
    assert(ascii_lowercase(lits[2]) == lits[2]);
    assert(ascii_lowercase(lits[3]) == lits[3]);
    assert(ascii_lowercase(lits[4]) == lits[4]);
    assert(seq!['g', 'i', 'f'][0] != seq!['j', 'p', 'g'][0]);
    assert(seq!['g', 'i', 'f'][0] != seq!['p', 'n', 'g'][0]);
    assert(seq!['s', 'v', 'g'][0] != seq!['j', 'p', 'g'][0]);
    assert(seq!['s', 'v', 'g'][0] != seq!['p', 'n', 'g'][0]);
    assert(ascii_lowercase(seq!['g', 'i', 'f']) =~= seq!['g', 'i', 'f']);
    assert(ascii_lowercase(seq!['s', 'v', 'g']) =~= seq!['s', 'v', 'g']);
}

/// Whether an extension (without its dot) is one of the image extensions.
pub fn is_image_extension_text(ext: &str) -> (r: bool)
    ensures
        r == is_image_extension(ext@),
{
    same_text_ignore_ascii_case(ext, "jpg") || same_text_ignore_ascii_case(ext, "jpeg")
        || same_text_ignore_ascii_case(ext, "png") || same_text_ignore_ascii_case(ext, "webp")
        || same_text_ignore_ascii_case(ext, "avif")
}

/// Whether the path names an image file, judged by its extension.
pub fn is_image(path: &str) -> (r: bool)
    ensures
        r == is_image_path(path@),
{
    match extension_of(path) {
        Some(ext) => is_image_extension_text(ext.as_str()),
        None => false,
    }
}

} // verus!
