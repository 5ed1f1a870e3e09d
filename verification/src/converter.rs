use vstd::prelude::*;
use crate::cli::{Format, Mode};
use crate::text::same_text;
use crate::pathname::{file_name_of, path_file_name, path_with_extension, with_extension_of};

verus! {

/// What the conversion session asks its driver to do next.
#[derive(Debug, Clone, Copy, PartialEq, Eq, Structural)]
pub enum ConversionRequest {
    /// Ask which format file `index` is converted to, or whether it is skipped (manual mode).
    AskFileFormat(usize),
    /// Ask which format every file is converted to (auto mode).
    AskCommonFormat,
    /// Convert file `index` to the format (manual mode).
    ConvertFile(usize, Format),
    /// Convert every file to the format (auto mode).
    ConvertAll(Format),
    /// Nothing is left to do; the session's mappings are its result.
    Finished,
}

/// What the driver reports back to the conversion session.
pub enum ConversionEvent {
    /// The format the user chose, or `None` for skip.
    Chosen(Option<Format>),
    /// Whether converting the pending file succeeded.
    Converted(bool),
    /// For every file, in order, whether converting it succeeded.
    ConvertedAll(Vec<bool>),
}

/// The file extension written for a format.
pub open spec fn format_extension(format: Format) -> Seq<char> {
    match format {
        Format::Webp => "webp"@,
        Format::Avif => "avif"@,
    }
}

/// The request that follows file `i` in manual mode.
pub open spec fn manual_next(i: int, n: nat) -> ConversionRequest {
    if i + 1 < n {
        ConversionRequest::AskFileFormat((i + 1) as usize)
    } else {
        ConversionRequest::Finished
    }
}

/// The pair (old path, new path) of a file converted to the given extension.
pub open spec fn conversion_pair(path: Seq<char>, ext: Seq<char>) -> (Seq<char>, Seq<char>) {
    (path, path_with_extension(path, ext))
}

/// The pairs (old path, new path) of the files below index `k` whose
/// conversion to the extension succeeded.
pub open spec fn converted_pairs(
    paths: Seq<Seq<char>>,
    succeeded: Seq<bool>,
    ext: Seq<char>,
    k: int,
) -> Seq<(Seq<char>, Seq<char>)>
    decreases k,
{
    if k <= 0 {
        seq![]
    } else {
        let prev = converted_pairs(paths, succeeded, ext, k - 1);
        if succeeded[k - 1] {
            prev.push(conversion_pair(paths[k - 1], ext))
        } else {
            prev
        }
    }
}

/// The request that the session issues after `event` answers `request`;
/// an event that does not answer the request leaves it pending.
pub open spec fn next_request(n: nat, request: ConversionRequest, event: ConversionEvent) -> ConversionRequest {
    match request {
        ConversionRequest::AskFileFormat(i) => match event {
            ConversionEvent::Chosen(Some(f)) => ConversionRequest::ConvertFile(i, f),
            ConversionEvent::Chosen(None) => manual_next(i as int, n),
            _ => request,
        },
        ConversionRequest::ConvertFile(i, _) => match event {
            ConversionEvent::Converted(_) => manual_next(i as int, n),
            _ => request,
        },
        ConversionRequest::AskCommonFormat => match event {
            ConversionEvent::Chosen(Some(f)) => ConversionRequest::ConvertAll(f),
            _ => request,
        },
        ConversionRequest::ConvertAll(_) => match event {
            ConversionEvent::ConvertedAll(rs) => if rs@.len() == n {
                ConversionRequest::Finished
            } else {
                request
            },
            _ => request,
        },
        ConversionRequest::Finished => request,
    }
}

/// The mappings that `event` adds when it answers `request`.
pub open spec fn added_mappings(
    paths: Seq<Seq<char>>,
    request: ConversionRequest,
    event: ConversionEvent,
) -> Seq<(Seq<char>, Seq<char>)> {
    match request {
        ConversionRequest::ConvertFile(i, f) => match event {
            ConversionEvent::Converted(true) => seq![
                conversion_pair(paths[i as int], format_extension(f)),
            ],
            _ => seq![],
        },
        ConversionRequest::ConvertAll(f) => match event {
            ConversionEvent::ConvertedAll(rs) => if rs@.len() == paths.len() {
                converted_pairs(paths, rs@, format_extension(f), paths.len() as int)
            } else {
                seq![]
            },
            _ => seq![],
        },
        _ => seq![],
    }
}

/// The old paths of `mapped` are paths of `paths` taken at strictly increasing
/// indices: each mapping renames an input file, and no file twice.
pub open spec fn follows_paths(mapped: Seq<(Seq<char>, Seq<char>)>, paths: Seq<Seq<char>>) -> bool {
    exists|src: Seq<int>| #[trigger] sources_of(src, mapped, paths, paths.len() as int)
}

/// `src` lists, for each mapping, the index of its old path; all indices are below `bound`.
pub open spec fn sources_of(
    src: Seq<int>,
    mapped: Seq<(Seq<char>, Seq<char>)>,
    paths: Seq<Seq<char>>,
    bound: int,
) -> bool {
    &&& src.len() == mapped.len()
    &&& bound <= paths.len()
    &&& forall|k: int| 0 <= k < src.len() ==> 0 <= #[trigger] src[k] < bound
    &&& forall|k: int| 0 <= k < src.len() ==> mapped[k].0 == paths[#[trigger] src[k]]
    &&& forall|a: int, b: int| 0 <= a < b < src.len() ==> src[a] < src[b]
}

/// Raising the bound keeps a source listing valid.
pub proof fn lemma_sources_weaken(
    src: Seq<int>,
    mapped: Seq<(Seq<char>, Seq<char>)>,
    paths: Seq<Seq<char>>,
    b1: int,
    b2: int,
)
    requires
        sources_of(src, mapped, paths, b1),
        b1 <= b2 <= paths.len(),
    ensures
        sources_of(src, mapped, paths, b2),
{
}

/// A finished session stays finished and adds no mapping.
pub proof fn lemma_finished_session_is_final(paths: Seq<Seq<char>>, event: ConversionEvent)
    ensures
        next_request(paths.len(), ConversionRequest::Finished, event) == ConversionRequest::Finished,
        added_mappings(paths, ConversionRequest::Finished, event) == Seq::<(Seq<char>, Seq<char>)>::empty(),
{
}

/// Skipping a file never adds a mapping, and in auto mode a skip asks for the format again.
pub proof fn lemma_skip_adds_nothing(paths: Seq<Seq<char>>, request: ConversionRequest)
    ensures
        added_mappings(paths, request, ConversionEvent::Chosen(None)) == Seq::<
            (Seq<char>, Seq<char>),
        >::empty(),
        request == ConversionRequest::AskCommonFormat ==> next_request(
            paths.len(),
            request,
            ConversionEvent::Chosen(None),
        ) == ConversionRequest::AskCommonFormat,
{
}

/// Converting everything yields at most one mapping per file, and exactly one
/// per file when every conversion succeeded.
pub proof fn lemma_converted_pairs_len(
    paths: Seq<Seq<char>>,
    succeeded: Seq<bool>,
    ext: Seq<char>,
    k: int,
)
    requires
        0 <= k <= succeeded.len(),
    ensures
        converted_pairs(paths, succeeded, ext, k).len() <= k,
        (forall|i: int| 0 <= i < k ==> #[trigger] succeeded[i]) ==> converted_pairs(
            paths,
            succeeded,
            ext,
            k,
        ).len() == k,
    decreases k,
{
    if k > 0 {
        lemma_converted_pairs_len(paths, succeeded, ext, k - 1);
    }
}

/// The indices below `k` whose conversion succeeded, in order.
spec fn succeeded_indices(succeeded: Seq<bool>, k: int) -> Seq<int>
    decreases k,
{
    if k <= 0 {
        seq![]
    } else {
        let prev = succeeded_indices(succeeded, k - 1);
        if succeeded[k - 1] {
            prev.push(k - 1)
        } else {
            prev
        }
    }
}

proof fn lemma_converted_pairs_members(
    paths: Seq<Seq<char>>,
    succeeded: Seq<bool>,
    ext: Seq<char>,
    k: int,
)
    requires
        0 <= k <= succeeded.len(),
        k <= paths.len(),
    ensures
        converted_pairs(paths, succeeded, ext, k).len() == succeeded_indices(succeeded, k).len(),
        forall|j: int|
            0 <= j < succeeded_indices(succeeded, k).len() ==> {
                let q = #[trigger] succeeded_indices(succeeded, k)[j];
                &&& 0 <= q < k
                &&& succeeded[q]
                &&& converted_pairs(paths, succeeded, ext, k)[j] == (
                    paths[q],
                    path_with_extension(paths[q], ext),
                )
            },
        forall|q: int|
            0 <= q < k && #[trigger] succeeded[q] ==> converted_pairs(paths, succeeded, ext, k).contains(
                (paths[q], path_with_extension(paths[q], ext)),
            ),
    decreases k,
{
    if k > 0 {
        lemma_converted_pairs_members(paths, succeeded, ext, k - 1);
        let prev = converted_pairs(paths, succeeded, ext, k - 1);
        let cur = converted_pairs(paths, succeeded, ext, k);
        let ps = succeeded_indices(succeeded, k - 1);
        let cs = succeeded_indices(succeeded, k);
        assert forall|j: int| 0 <= j < cs.len() implies {
            let q = #[trigger] cs[j];
            &&& 0 <= q < k
            &&& succeeded[q]
            &&& cur[j] == (paths[q], path_with_extension(paths[q], ext))
        } by {
            if j < ps.len() {
                assert(cs[j] == ps[j]);
                assert(cur[j] == prev[j]);
            }
        }
        assert forall|q: int| 0 <= q < k && #[trigger] succeeded[q] implies cur.contains(
            (paths[q], path_with_extension(paths[q], ext)),
        ) by {
            let pair = (paths[q], path_with_extension(paths[q], ext));
            if q < k - 1 {
                let w = choose|w: int| 0 <= w < prev.len() && prev[w] == pair;
                assert(cur[w] == pair);
            } else {
                assert(cur[cur.len() - 1] == pair);
            }
        }
    }
}

/// `pair` records a file whose conversion succeeded: its old path is that
/// file's path and its new path is that path with the extension `ext`.
pub open spec fn is_converted_file(
    pair: (Seq<char>, Seq<char>),
    paths: Seq<Seq<char>>,
    succeeded: Seq<bool>,
    ext: Seq<char>,
) -> bool {
    exists|k: int|
        0 <= k < paths.len() && succeeded[k] && pair == (paths[k], path_with_extension(
            paths[k],
            ext,
        ))
}

/// Law: in manual mode the format the user chose for a file is the one it is
/// converted to, and a successful conversion records the file with the
/// chosen format's extension (`webp` or `avif`); a failed one records nothing.
/// After the file, the session asks about the next one, or finishes.
pub proof fn law_manual_conversion_records_chosen_format(
    paths: Seq<Seq<char>>,
    i: usize,
    f: Format,
    ok: bool,
)
    requires
        i < paths.len(),
    ensures
        next_request(paths.len(), ConversionRequest::AskFileFormat(i), ConversionEvent::Chosen(Some(f)))
            == ConversionRequest::ConvertFile(i, f),
        f == Format::Webp ==> added_mappings(
            paths,
            ConversionRequest::ConvertFile(i, f),
            ConversionEvent::Converted(true),
        ) == seq![(paths[i as int], path_with_extension(paths[i as int], seq!['w', 'e', 'b', 'p']))],
        f == Format::Avif ==> added_mappings(
            paths,
            ConversionRequest::ConvertFile(i, f),
            ConversionEvent::Converted(true),
        ) == seq![(paths[i as int], path_with_extension(paths[i as int], seq!['a', 'v', 'i', 'f']))],
        added_mappings(paths, ConversionRequest::ConvertFile(i, f), ConversionEvent::Converted(false))
            == Seq::<(Seq<char>, Seq<char>)>::empty(),
        i + 1 < paths.len() ==> next_request(
            paths.len(),
            ConversionRequest::ConvertFile(i, f),
            ConversionEvent::Converted(ok),
        ) == ConversionRequest::AskFileFormat((i + 1) as usize),
        i + 1 >= paths.len() ==> next_request(
            paths.len(),
            ConversionRequest::ConvertFile(i, f),
            ConversionEvent::Converted(ok),
        ) == ConversionRequest::Finished,
        i + 1 < paths.len() ==> next_request(
            paths.len(),
            ConversionRequest::AskFileFormat(i),
            ConversionEvent::Chosen(None),
        ) == ConversionRequest::AskFileFormat((i + 1) as usize),
        i + 1 >= paths.len() ==> next_request(
            paths.len(),
            ConversionRequest::AskFileFormat(i),
            ConversionEvent::Chosen(None),
        ) == ConversionRequest::Finished,
{
    reveal_strlit("webp");
    reveal_strlit("avif");
    assert("webp"@ =~= seq!['w', 'e', 'b', 'p']);
    assert("avif"@ =~= seq!['a', 'v', 'i', 'f']);
}

/// Law: in auto mode the format chosen once is the one every file is
/// converted to; the session records exactly the files whose conversion
/// succeeded, each with the chosen format's extension (`webp` or `avif`),
/// and then finishes.
pub proof fn law_auto_conversion_records_chosen_format(
    paths: Seq<Seq<char>>,
    succeeded: Vec<bool>,
    f: Format,
)
    requires
        succeeded@.len() == paths.len(),
    ensures
        next_request(paths.len(), ConversionRequest::AskCommonFormat, ConversionEvent::Chosen(Some(f)))
            == ConversionRequest::ConvertAll(f),
        next_request(paths.len(), ConversionRequest::AskCommonFormat, ConversionEvent::Chosen(None))
            == ConversionRequest::AskCommonFormat,
        next_request(
            paths.len(),
            ConversionRequest::ConvertAll(f),
            ConversionEvent::ConvertedAll(succeeded),
        ) == ConversionRequest::Finished,
        added_mappings(
            paths,
            ConversionRequest::ConvertAll(f),
            ConversionEvent::ConvertedAll(succeeded),
        ).len() <= paths.len(),
        f == Format::Webp ==> forall|j: int|
            #![trigger added_mappings(
                paths,
                ConversionRequest::ConvertAll(f),
                ConversionEvent::ConvertedAll(succeeded),
            )[j]]
            0 <= j < added_mappings(
                paths,
                ConversionRequest::ConvertAll(f),
                ConversionEvent::ConvertedAll(succeeded),
            ).len() ==> is_converted_file(
                added_mappings(
                    paths,
                    ConversionRequest::ConvertAll(f),
                    ConversionEvent::ConvertedAll(succeeded),
                )[j],
                paths,
                succeeded@,
                seq!['w', 'e', 'b', 'p'],
            ),
        f == Format::Avif ==> forall|j: int|
            #![trigger added_mappings(
                paths,
                ConversionRequest::ConvertAll(f),
                ConversionEvent::ConvertedAll(succeeded),
            )[j]]
            0 <= j < added_mappings(
                paths,
                ConversionRequest::ConvertAll(f),
                ConversionEvent::ConvertedAll(succeeded),
            ).len() ==> is_converted_file(
                added_mappings(
                    paths,
                    ConversionRequest::ConvertAll(f),
                    ConversionEvent::ConvertedAll(succeeded),
                )[j],
                paths,
                succeeded@,
                seq!['a', 'v', 'i', 'f'],
            ),
        f == Format::Webp ==> forall|k: int|
            0 <= k < paths.len() && #[trigger] succeeded@[k] ==> added_mappings(
                paths,
                ConversionRequest::ConvertAll(f),
                ConversionEvent::ConvertedAll(succeeded),
            ).contains((paths[k], path_with_extension(paths[k], seq!['w', 'e', 'b', 'p']))),
        f == Format::Avif ==> forall|k: int|
            0 <= k < paths.len() && #[trigger] succeeded@[k] ==> added_mappings(
                paths,
                ConversionRequest::ConvertAll(f),
                ConversionEvent::ConvertedAll(succeeded),
            ).contains((paths[k], path_with_extension(paths[k], seq!['a', 'v', 'i', 'f']))),
{
    reveal_strlit("webp");
    reveal_strlit("avif");
    assert("webp"@ =~= seq!['w', 'e', 'b', 'p']);
    assert("avif"@ =~= seq!['a', 'v', 'i', 'f']);
    let ext = format_extension(f);
    let n = paths.len() as int;
    lemma_converted_pairs_members(paths, succeeded@, ext, n);
    lemma_converted_pairs_len(paths, succeeded@, ext, n);
    let m = added_mappings(
        paths,
        ConversionRequest::ConvertAll(f),
        ConversionEvent::ConvertedAll(succeeded),
    );
    assert(m == converted_pairs(paths, succeeded@, ext, n));
    let lit = if f == Format::Webp {
        seq!['w', 'e', 'b', 'p']
    } else {
        seq!['a', 'v', 'i', 'f']
    };
    assert(ext == lit);
    assert forall|j: int| 0 <= j < m.len() implies #[trigger] is_converted_file(
        m[j],
        paths,
        succeeded@,
        lit,
    ) by {
        let q = succeeded_indices(succeeded@, n)[j];
        assert(succeeded@[q]);
        assert(m[j] == (paths[q], path_with_extension(paths[q], lit)));
    }
}

/// Law: manual mode starts with the first file (or finishes when there is
/// none); auto mode starts by asking for the common format.
pub proof fn law_first_request(n: nat)
    ensures
        n > 0 ==> ConversionSession::first_request(n, Mode::Manual)
            == ConversionRequest::AskFileFormat(0),
        n == 0 ==> ConversionSession::first_request(n, Mode::Manual) == ConversionRequest::Finished,
        ConversionSession::first_request(n, Mode::Auto) == ConversionRequest::AskCommonFormat,
{
}

/// Converts images, one at a time or all at once; the conversion itself is done
/// by the driver, which follows the requests of a `ConversionSession`.
pub struct Converter;

/// The decisions of one conversion run: which question or conversion comes next,
/// and which (old path, new path) pairs the run produced.
pub struct ConversionSession {
    paths: Vec<String>,
    mode: Mode,
    pending: ConversionRequest,
    mapped: Vec<(String, String)>,
    sources: Ghost<Seq<int>>,
}


/// The question asked about one file in manual mode.
pub open spec fn file_prompt_text(path: Seq<char>) -> Seq<char> {
    let name = match path_file_name(path) {
        Some(n) => n,
        None => Seq::<char>::empty(),
    };
    "Convert '"@ + name + "'?"@
}

fn extension_text(format: Format) -> (r: &'static str)
    ensures
        r@ == format_extension(format),
        !r@.contains('/'),
        !r@.contains('\\'),
{
    proof {
        reveal_strlit("webp");
        reveal_strlit("avif");
    }
    match format {
        Format::Webp => "webp",
        Format::Avif => "avif",
    }
}

fn converted_path(path: &str, format: Format) -> (r: String)
    ensures
        r@ == path_with_extension(path@, format_extension(format)),
{
    with_extension_of(path, extension_text(format))
}

impl Converter {
    pub fn new() -> (r: Converter) {
        Converter
    }

    /// Starts converting `paths` in `mode`; the session's requests drive the run.
    pub fn process(&self, paths: &Vec<String>, mode: Mode) -> (r: ConversionSession)
        ensures
            r.paths() == paths.deep_view(),
            r.mode() == mode,
            r.request() == ConversionSession::first_request(paths@.len(), mode),
            r.mappings() == Seq::<(Seq<char>, Seq<char>)>::empty(),
    {
        ConversionSession::start(paths, mode)
    }

    /// The extension of the files written in `format`.
    pub fn target_extension(&self, format: Format) -> (r: &'static str)
        ensures
            r@ == format_extension(format),
    {
        extension_text(format)
    }

    /// The path a converted file is written to: the path with its extension
    /// replaced by the format's extension.
    pub fn target_path(&self, path: &str, format: Format) -> (r: String)
        ensures
            r@ == path_with_extension(path@, format_extension(format)),
    {
        converted_path(path, format)
    }

    /// Whether converting the file leaves its original behind to be removed:
    /// true unless the path already ends in the format's extension, in which
    /// case the converted file took the original's place.
    pub fn original_is_replaced(&self, path: &str, format: Format) -> (r: bool)
        ensures
            r == (path_with_extension(path@, format_extension(format)) != path@),
    {
        let target = converted_path(path, format);
        !same_text(target.as_str(), path)
    }

    /// The question asked about one file in manual mode: `Convert '<file name>'?`.
    pub fn file_prompt(&self, path: &str) -> (r: String)
        ensures
            r@ == file_prompt_text(path@),
    {
        let mut prompt = String::from_str("Convert '");
        match file_name_of(path) {
            Some(name) => prompt.append(name.as_str()),
            None => {},
        }
        prompt.append("'?");
        proof {
            let name = match path_file_name(path@) {
                Some(n) => n,
                None => Seq::<char>::empty(),
            };
            assert(prompt@ =~= "Convert '"@ + name + "'?"@);
        }
        prompt
    }
}

impl ConversionSession {
    pub closed spec fn paths(self) -> Seq<Seq<char>> {
        self.paths.deep_view()
    }

    pub closed spec fn mode(self) -> Mode {
        self.mode
    }

    pub closed spec fn request(self) -> ConversionRequest {
        self.pending
    }

    pub closed spec fn mappings(self) -> Seq<(Seq<char>, Seq<char>)> {
        self.mapped.deep_view()
    }

    /// The internal consistency of a session.
    #[verifier::type_invariant]
    spec fn well_formed(self) -> bool {
        let n = self.paths@.len() as int;
        &&& match self.pending {
            ConversionRequest::AskFileFormat(i) => self.mode == Mode::Manual && i < n
                && sources_of(self.sources@, self.mapped.deep_view(), self.paths.deep_view(), i as int),
            ConversionRequest::ConvertFile(i, _) => self.mode == Mode::Manual && i < n
                && sources_of(self.sources@, self.mapped.deep_view(), self.paths.deep_view(), i as int),
            ConversionRequest::AskCommonFormat => self.mode == Mode::Auto
                && self.mapped@.len() == 0,
            ConversionRequest::ConvertAll(_) => self.mode == Mode::Auto
                && self.mapped@.len() == 0,
            ConversionRequest::Finished => sources_of(
                self.sources@,
                self.mapped.deep_view(),
                self.paths.deep_view(),
                n,
            ),
        }
    }

    proof fn lemma_well_formed_follows(self)
        requires
            self.well_formed(),
        ensures
            follows_paths(self.mappings(), self.paths()),
    {
        let n = self.paths@.len() as int;
        let pv = self.paths.deep_view();
        let mv = self.mapped.deep_view();
        match self.pending {
            ConversionRequest::AskFileFormat(i) => {
                lemma_sources_weaken(self.sources@, mv, pv, i as int, n);
                assert(sources_of(self.sources@, mv, pv, pv.len() as int));
            },
            ConversionRequest::ConvertFile(i, _) => {
                lemma_sources_weaken(self.sources@, mv, pv, i as int, n);
                assert(sources_of(self.sources@, mv, pv, pv.len() as int));
            },
            ConversionRequest::Finished => {
                assert(sources_of(self.sources@, mv, pv, pv.len() as int));
            },
            _ => {
                assert(sources_of(seq![], mv, pv, pv.len() as int));
            },
        }
    }

    /// The request the driver has to carry out now.
    pub fn current(&self) -> (r: ConversionRequest)
        ensures
            r == self.request(),
    {
        self.pending
    }

    /// The path of file `index`, if there is such a file.
    pub fn path(&self, index: usize) -> (r: Option<&String>)
        ensures
            r is Some == (index < self.paths().len()),
            r matches Some(p) ==> p@ == self.paths()[index as int],
    {
        if index < self.paths.len() {
            Some(&self.paths[index])
        } else {
            None
        }
    }

    /// The (old path, new path) pairs of the files converted so far.
    pub fn mapped(&self) -> (r: &Vec<(String, String)>)
        ensures
            r.deep_view() == self.mappings(),
    {
        &self.mapped
    }

    /// The session that `Converter::process` starts: in manual mode it asks
    /// about the first file (or finishes when there is none), in auto mode it
    /// asks for the common format.
    pub open spec fn first_request(n: nat, mode: Mode) -> ConversionRequest {
        match mode {
            Mode::Manual => if n > 0 {
                ConversionRequest::AskFileFormat(0)
            } else {
                ConversionRequest::Finished
            },
            Mode::Auto => ConversionRequest::AskCommonFormat,
        }
    }

    fn start(paths: &Vec<String>, mode: Mode) -> (r: ConversionSession)
        ensures
            r.paths() == paths.deep_view(),
            r.mode() == mode,
            r.request() == Self::first_request(paths@.len(), mode),
            r.mappings() == Seq::<(Seq<char>, Seq<char>)>::empty(),
    {
        let mut copy: Vec<String> = Vec::new();
        let n = paths.len();
        let mut i: usize = 0;
        while i < n
            invariant
                n == paths@.len(),
                i <= n,
                copy.deep_view() == paths.deep_view().take(i as int),
            decreases n - i,
        {
            let ghost before = copy.deep_view();
            copy.push(paths[i].clone());
            assert(copy.deep_view() =~= before.push(paths.deep_view()[i as int]));
            assert(copy.deep_view() =~= paths.deep_view().take(i + 1));
            i = i + 1;
        }
        assert(paths.deep_view().take(n as int) =~= paths.deep_view());
        let pending = match mode {
            Mode::Manual => if n > 0 {
                ConversionRequest::AskFileFormat(0)
            } else {
                ConversionRequest::Finished
            },
            Mode::Auto => ConversionRequest::AskCommonFormat,
        };
        let mapped: Vec<(String, String)> = Vec::new();
        let sources: Ghost<Seq<int>> = Ghost(Seq::empty());
        let r = ConversionSession { paths: copy, mode, pending, mapped, sources };
        assert(r.mapped.deep_view() =~= Seq::<(Seq<char>, Seq<char>)>::empty());
        assert(sources_of(seq![], r.mapped.deep_view(), r.paths.deep_view(), 0));
        assert(sources_of(seq![], r.mapped.deep_view(), r.paths.deep_view(), n as int));
        r
    }

    /// Takes the driver's report on the pending request and returns the next request.
    pub fn advance(&mut self, event: ConversionEvent) -> (r: ConversionRequest)
        ensures
            final(self).paths() == old(self).paths(),
            final(self).mode() == old(self).mode(),
            r == final(self).request(),
            final(self).request() == next_request(old(self).paths().len(), old(self).request(), event),
            final(self).mappings() == old(self).mappings() + added_mappings(
                old(self).paths(),
                old(self).request(),
                event,
            ),
            follows_paths(final(self).mappings(), final(self).paths()),
    {
        proof {
            use_type_invariant(&*self);
        }
        let mut run = ConversionSession {
            paths: Vec::new(),
            mode: Mode::Auto,
            pending: ConversionRequest::AskCommonFormat,
            mapped: Vec::new(),
            sources: Ghost(Seq::empty()),
        };
        std::mem::swap(&mut run, self);
        let ConversionSession { paths, mode, pending, mut mapped, mut sources } = run;
        let ghost ev = event;
        let ghost pv = paths.deep_view();
        let ghost old_mapped = mapped.deep_view();
        let n = paths.len();
        let mut next = pending;
        match pending {
            ConversionRequest::AskFileFormat(i) => {
                match event {
                    ConversionEvent::Chosen(Some(f)) => {
                        next = ConversionRequest::ConvertFile(i, f);
                    },
                    ConversionEvent::Chosen(None) => {
                        if i + 1 < n {
                            next = ConversionRequest::AskFileFormat(i + 1);
                        } else {
                            next = ConversionRequest::Finished;
                        }
                    },
                    _ => {},
                }
                assert(added_mappings(pv, pending, ev) =~= seq![]);
                assert(mapped.deep_view() =~= old_mapped + seq![]);
            },
            ConversionRequest::ConvertFile(i, f) => {
                match event {
                    ConversionEvent::Converted(ok) => {
                        if ok {
                            let from = paths[i].clone();
                            let to = converted_path(from.as_str(), f);
                            let ghost pair = conversion_pair(pv[i as int], format_extension(f));
                            mapped.push((from, to));
                            sources = Ghost(sources@.push(i as int));
                            assert(mapped.deep_view() =~= old_mapped.push(pair));
                            assert(old_mapped.push(pair) =~= old_mapped + seq![pair]);
                        } else {
                            assert(mapped.deep_view() =~= old_mapped + seq![]);
                        }
                        if i + 1 < n {
                            next = ConversionRequest::AskFileFormat(i + 1);
                        } else {
                            next = ConversionRequest::Finished;
                        }
                    },
                    _ => {
                        assert(mapped.deep_view() =~= old_mapped + seq![]);
                    },
                }
            },
            ConversionRequest::AskCommonFormat => {
                match event {
                    ConversionEvent::Chosen(Some(f)) => {
                        next = ConversionRequest::ConvertAll(f);
                    },
                    _ => {},
                }
                assert(mapped.deep_view() =~= old_mapped + seq![]);
            },
            ConversionRequest::ConvertAll(f) => {
                match event {
                    ConversionEvent::ConvertedAll(results) => {
                        if results.len() == n {
                            let ghost rv = results@;
                            let ghost ext = format_extension(f);
                            let ghost mode0 = mode;
                            let ghost pending0 = next;
                            sources = Ghost(Seq::empty());
                            assert(mapped.deep_view() =~= converted_pairs(pv, rv, ext, 0));
                            let mut k: usize = 0;
                            while k < n
                                invariant
                                    n == paths@.len(),
                                    pv == paths.deep_view(),
                                    n == results@.len(),
                                    rv == results@,
                                    ext == format_extension(f),
                                    k <= n,
                                    mapped.deep_view() == converted_pairs(pv, rv, ext, k as int),
                                    sources_of(sources@, mapped.deep_view(), pv, k as int),
                                    mode == mode0,
                                    next == pending0,
                                decreases n - k,
                            {
                                let ghost before = mapped.deep_view();
                                if results[k] {
                                    let from = paths[k].clone();
                                    let to = converted_path(from.as_str(), f);
                                    mapped.push((from, to));
                                    sources = Ghost(sources@.push(k as int));
                                    assert(mapped.deep_view() =~= before.push(
                                        conversion_pair(pv[k as int], ext),
                                    ));
                                }
                                k = k + 1;
                            }
                            next = ConversionRequest::Finished;
                            assert(mapped.deep_view() =~= old_mapped + mapped.deep_view());
                        } else {
                            assert(mapped.deep_view() =~= old_mapped + seq![]);
                        }
                    },
                    _ => {
                        assert(mapped.deep_view() =~= old_mapped + seq![]);
                    },
                }
            },
            ConversionRequest::Finished => {
                assert(mapped.deep_view() =~= old_mapped + seq![]);
            },
        }
        *self = ConversionSession { paths, mode, pending: next, mapped, sources };
        proof {
            use_type_invariant(&*self);
            self.lemma_well_formed_follows();
        }
        next
    }
}

} // verus!
