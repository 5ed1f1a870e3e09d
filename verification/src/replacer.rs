use vstd::prelude::*;
use crate::error::ReimgError;
use crate::matcher::{
    any_occurs, automaton_leftmost_first, occurs_in, automaton_patterns, automaton_replace_all, build_standard,
    describe_build_error, has_match, replace_all_matches, standard_builds,
};
use crate::pathname::{file_name_of, path_file_name};

verus! {

/// The old file names of the renames in which both paths have a file name.
pub open spec fn rename_patterns(mappings: Seq<(Seq<char>, Seq<char>)>) -> Seq<Seq<char>>
    decreases mappings.len(),
{
    if mappings.len() == 0 {
        seq![]
    } else {
        let prev = rename_patterns(mappings.drop_last());
        let (old, new) = mappings.last();
        if path_file_name(old) is Some && path_file_name(new) is Some {
            prev.push(path_file_name(old)->0)
        } else {
            prev
        }
    }
}

/// The new file names of the same renames, in the same order.
pub open spec fn rename_replacements(mappings: Seq<(Seq<char>, Seq<char>)>) -> Seq<Seq<char>>
    decreases mappings.len(),
{
    if mappings.len() == 0 {
        seq![]
    } else {
        let prev = rename_replacements(mappings.drop_last());
        let (old, new) = mappings.last();
        if path_file_name(old) is Some && path_file_name(new) is Some {
            prev.push(path_file_name(new)->0)
        } else {
            prev
        }
    }
}

/// What happens to one text: `Some` with the rewritten text when it mentions
/// an old file name, `None` when it is left as it is.
pub open spec fn planned_update(mappings: Seq<(Seq<char>, Seq<char>)>, text: Seq<char>) -> Option<
    Seq<char>,
> {
    let pats = rename_patterns(mappings);
    if mappings.len() > 0 && any_occurs(pats, text) {
        Some(automaton_replace_all(pats, false, text, rename_replacements(mappings)))
    } else {
        None
    }
}

/// There is one replacement per pattern, and at most one pattern per rename.
pub proof fn lemma_rename_lengths(mappings: Seq<(Seq<char>, Seq<char>)>)
    ensures
        rename_patterns(mappings).len() == rename_replacements(mappings).len(),
        rename_patterns(mappings).len() <= mappings.len(),
    decreases mappings.len(),
{
    if mappings.len() > 0 {
        lemma_rename_lengths(mappings.drop_last());
    }
}

/// Law: the k-th search pattern and the k-th replacement come from one rename:
/// they are the file names of its old and of its new path.
pub proof fn law_renames_pair_up(mappings: Seq<(Seq<char>, Seq<char>)>)
    ensures
        rename_patterns(mappings).len() == rename_replacements(mappings).len(),
        forall|k: int|
            0 <= k < rename_patterns(mappings).len() ==> exists|m: int|
                #![trigger mappings[m]]
                0 <= m < mappings.len() && path_file_name(mappings[m].0) == Some(
                    #[trigger] rename_patterns(mappings)[k],
                ) && path_file_name(mappings[m].1) == Some(rename_replacements(mappings)[k]),
        forall|m: int|
            0 <= m < mappings.len() && path_file_name(mappings[m].0) is Some && path_file_name(
                #[trigger] mappings[m].1,
            ) is Some ==> rename_patterns(mappings).contains(path_file_name(mappings[m].0)->0),
    decreases mappings.len(),
{
    lemma_rename_lengths(mappings);
    if mappings.len() > 0 {
        let prev = mappings.drop_last();
        law_renames_pair_up(prev);
        let pp = rename_patterns(prev);
        let pr = rename_replacements(prev);
        let cp = rename_patterns(mappings);
        let cr = rename_replacements(mappings);
        assert forall|k: int| 0 <= k < cp.len() implies exists|m: int|
            #![trigger mappings[m]]
            0 <= m < mappings.len() && path_file_name(mappings[m].0) == Some(#[trigger] cp[k])
                && path_file_name(mappings[m].1) == Some(cr[k]) by {
            if k < pp.len() {
                assert(cp[k] == pp[k]);
                assert(cr[k] == pr[k]);
                let m = choose|m: int|
                    #![trigger prev[m]]
                    0 <= m < prev.len() && path_file_name(prev[m].0) == Some(pp[k])
                        && path_file_name(prev[m].1) == Some(pr[k]);
                assert(mappings[m] == prev[m]);
            } else {
                let m = mappings.len() - 1;
                assert(mappings[m] == mappings.last());
            }
        }
        assert forall|m: int|
            0 <= m < mappings.len() && path_file_name(mappings[m].0) is Some && path_file_name(
                #[trigger] mappings[m].1,
            ) is Some implies cp.contains(path_file_name(mappings[m].0)->0) by {
            if m < mappings.len() - 1 {
                assert(prev[m] == mappings[m]);
                let w = choose|w: int| 0 <= w < pp.len() && pp[w] == path_file_name(prev[m].0)->0;
                assert(cp[w] == pp[w]);
            } else {
                assert(cp[cp.len() - 1] == path_file_name(mappings[m].0)->0);
            }
        }
    }
}

/// Law: a text is rewritten exactly when there are renames and it contains
/// the old file name of one of them; it is then replaced by the automaton's
/// rewrite over those names.
pub proof fn law_rewrite_only_mentioning_texts(
    mappings: Seq<(Seq<char>, Seq<char>)>,
    text: Seq<char>,
)
    ensures
        planned_update(mappings, text) is Some <==> (mappings.len() > 0 && exists|k: int|
            0 <= k < rename_patterns(mappings).len() && occurs_in(
                #[trigger] rename_patterns(mappings)[k],
                text,
            )),
        planned_update(mappings, text) matches Some(t) ==> t == automaton_replace_all(
            rename_patterns(mappings),
            false,
            text,
            rename_replacements(mappings),
        ),
{
}

/// Plans how the project's texts change after images were renamed: every
/// occurrence of an old file name is replaced by the new one. Returns, for
/// each text, the new content to write, or `None` where the text stays as it is.
pub fn update_code_references(texts: &Vec<String>, mappings: &Vec<(String, String)>) -> (r: Result<
    Vec<Option<String>>,
    ReimgError,
>)
    ensures
        mappings@.len() == 0 ==> r is Ok,
        mappings@.len() > 0 ==> ((r is Ok) == standard_builds(
            rename_patterns(mappings.deep_view()),
        )),
        r matches Ok(v) ==> v@.len() == texts@.len() && forall|i: int|
            0 <= i < texts@.len() ==> (#[trigger] v@[i]).deep_view() == planned_update(
                mappings.deep_view(),
                texts.deep_view()[i],
            ),
        r matches Ok(v) ==> forall|i: int|
            0 <= i < texts@.len() && !any_occurs(
                rename_patterns(mappings.deep_view()),
                texts.deep_view()[i],
            ) ==> (#[trigger] v@[i]) is None,
        r matches Err(e) ==> e is PatternSet,
{
    let ghost mv = mappings.deep_view();
    let ghost tv = texts.deep_view();
    let n = texts.len();
    if mappings.len() == 0 {
        let mut untouched: Vec<Option<String>> = Vec::new();
        let mut i: usize = 0;
        while i < n
            invariant
                i <= n,
                n == texts@.len(),
                untouched@.len() == i,
                forall|k: int| 0 <= k < i ==> (#[trigger] untouched@[k]) is None,
            decreases n - i,
        {
            untouched.push(None);
            i = i + 1;
        }
        return Ok(untouched);
    }
    let mut patterns: Vec<String> = Vec::new();
    let mut replacements: Vec<String> = Vec::new();
    let m = mappings.len();
    let mut i: usize = 0;
    while i < m
        invariant
            m == mappings@.len(),
            mv == mappings.deep_view(),
            i <= m,
            patterns.deep_view() == rename_patterns(mv.take(i as int)),
            replacements.deep_view() == rename_replacements(mv.take(i as int)),
        decreases m - i,
    {
        assert(mv.take(i + 1).drop_last() =~= mv.take(i as int));
        assert(mv.take(i + 1).last() == mv[i as int]);
        let ghost before_p = patterns.deep_view();
        let ghost before_r = replacements.deep_view();
        let old_name = file_name_of(mappings[i].0.as_str());
        let new_name = file_name_of(mappings[i].1.as_str());
        match (old_name, new_name) {
            (Some(o), Some(w)) => {
                patterns.push(o);
                replacements.push(w);
                assert(patterns.deep_view() =~= before_p.push(o@));
                assert(replacements.deep_view() =~= before_r.push(w@));
            },
            _ => {},
        }
        i = i + 1;
    }
    assert(mv.take(m as int) =~= mv);
    proof {
        lemma_rename_lengths(mv);
    }
    let ac = match build_standard(&patterns) {
        Ok(ac) => ac,
        Err(e) => {
            return Err(ReimgError::PatternSet(describe_build_error(&e)));
        },
    };
    let ghost pats = patterns.deep_view();
    let mut planned: Vec<Option<String>> = Vec::new();
    let mut j: usize = 0;
    while j < n
        invariant
            n == texts@.len(),
            tv == texts.deep_view(),
            mv == mappings.deep_view(),
            mv.len() > 0,
            pats == rename_patterns(mv),
            replacements.deep_view() == rename_replacements(mv),
            pats.len() == replacements@.len(),
            automaton_patterns(ac) == pats,
            !automaton_leftmost_first(ac),
            j <= n,
            planned@.len() == j,
            forall|k: int|
                0 <= k < j ==> (#[trigger] planned@[k]).deep_view() == planned_update(mv, tv[k]),
        decreases n - j,
    {
        if has_match(&ac, texts[j].as_str()) {
            let updated = replace_all_matches(&ac, texts[j].as_str(), &replacements);
            planned.push(Some(updated));
        } else {
            planned.push(None);
        }
        j = j + 1;
    }
    Ok(planned)
}

} // verus!
