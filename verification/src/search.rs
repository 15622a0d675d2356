//! Searching: the command lines for `fd` (or `find` when `fd` is missing),
//! the candidates read from their output, and how the hits are filtered and
//! ordered for display.
use vstd::prelude::*;
use crate::app::{App, SearchFilter};
use crate::fuzzy::{display_name, nucleo_ranking, paths_for_ranking, rank_search_paths};
use crate::keys::{g_search, same_except};
use crate::navigator::strs;
use crate::order::{comps_order, comps_order_exec, lemma_comps_order_is_order, sort_by_key, views, SortKey};
use crate::path::{components, components_of, comps_view, is_hidden, is_hidden_path};
use crate::text::{concat, lines, lines_of, str_eq, to_owned_string};

verus! {

/// What `String::from_utf8_lossy` makes of `bytes`.
pub uninterp spec fn utf8_lossy(bytes: Seq<u8>) -> Seq<char>;

/// Trusted: `String::from_utf8_lossy` decodes `bytes` as UTF-8, putting the
/// replacement character in place of each invalid sequence; the result is
/// named `utf8_lossy`, and for valid UTF-8 it is the decoded text, as the
/// documentation states.
#[verifier::external_body]
fn decode_lossy(bytes: &Vec<u8>) -> (r: String)
    ensures
        r@ == utf8_lossy(bytes@),
        vstd::utf8::valid_utf8(bytes@) ==> r@ == vstd::utf8::decode_utf8(bytes@),
{
    String::from_utf8_lossy(bytes.as_slice()).into_owned()
}

/// The search depth: deeper for a global search.
pub open spec fn depth_arg(global: bool) -> Seq<char> {
    if global {
        "8"@
    } else {
        "5"@
    }
}

/// The directories a search of the home directory skips, each after `--exclude`.
pub open spec fn exclude_args() -> Seq<Seq<char>> {
    seq![
        "--exclude"@,
        ".cargo"@,
        "--exclude"@,
        "target"@,
        "--exclude"@,
        ".git"@,
        "--exclude"@,
        ".wine"@,
        "--exclude"@,
        ".rex_trash"@,
        "--exclude"@,
        "node_modules"@,
    ]
}

/// The arguments of `program` (`fd` or `fdfind`) for a search of `query`
/// under `root`: `fdfind` also shows hidden entries (`-H`); the system search
/// shows hidden entries, any other stays on one file system and skips noisy
/// directories; the folder and file filters restrict the type.
pub open spec fn fd_args_spec(
    program: Seq<char>,
    query: Seq<char>,
    root: Seq<char>,
    global: bool,
    filter: SearchFilter,
) -> Seq<Seq<char>> {
    seq![query, root] + (if program == "fdfind"@ {
        seq!["-H"@]
    } else {
        Seq::empty()
    }) + seq!["--max-depth"@, depth_arg(global), "--color"@, "never"@] + (if filter
        == SearchFilter::System {
        seq!["--hidden"@]
    } else {
        seq!["--one-file-system"@] + exclude_args()
    }) + match filter {
        SearchFilter::Files => seq!["--type"@, "f"@],
        SearchFilter::Folders => seq!["--type"@, "d"@],
        _ => Seq::empty(),
    }
}

/// The arguments of `find` for the same search: names containing `query`,
/// in any case.
pub open spec fn find_args_spec(root: Seq<char>, query: Seq<char>, global: bool, filter: SearchFilter) -> Seq<
    Seq<char>,
> {
    seq![root, "-maxdepth"@, depth_arg(global)] + match filter {
        SearchFilter::Files => seq!["-type"@, "f"@],
        SearchFilter::Folders => seq!["-type"@, "d"@],
        _ => Seq::empty(),
    } + seq!["-iname"@, "*"@ + query + "*"@]
}

fn push_arg(v: &mut Vec<String>, s: &str)
    ensures
        strs(final(v)@) == strs(old(v)@).push(s@),
{
    v.push(to_owned_string(s));
    assert(strs(v@) =~= strs(old(v)@).push(s@));
}

fn depth_exec(global: bool) -> (r: &'static str)
    ensures
        r@ == depth_arg(global),
{
    if global {
        "8"
    } else {
        "5"
    }
}

/// The arguments of `program` for a search (see `fd_args_spec`).
pub fn fd_args(program: &str, query: &str, root: &str, global: bool, filter: SearchFilter) -> (r: Vec<String>)
    ensures
        strs(r@) == fd_args_spec(program@, query@, root@, global, filter),
{
    let mut v: Vec<String> = Vec::new();
    push_arg(&mut v, query);
    push_arg(&mut v, root);
    let ghost a = strs(v@);
    if str_eq(program, "fdfind") {
        push_arg(&mut v, "-H");
    }
    let ghost b = strs(v@);
    push_arg(&mut v, "--max-depth");
    push_arg(&mut v, depth_exec(global));
    push_arg(&mut v, "--color");
    push_arg(&mut v, "never");
    let ghost c = strs(v@);
    if filter == SearchFilter::System {
        push_arg(&mut v, "--hidden");
    } else {
        push_arg(&mut v, "--one-file-system");
        push_arg(&mut v, "--exclude");
        push_arg(&mut v, ".cargo");
        push_arg(&mut v, "--exclude");
        push_arg(&mut v, "target");
        push_arg(&mut v, "--exclude");
        push_arg(&mut v, ".git");
        push_arg(&mut v, "--exclude");
        push_arg(&mut v, ".wine");
        push_arg(&mut v, "--exclude");
        push_arg(&mut v, ".rex_trash");
        push_arg(&mut v, "--exclude");
        push_arg(&mut v, "node_modules");
    }
    let ghost d = strs(v@);
    match filter {
        SearchFilter::Files => {
            push_arg(&mut v, "--type");
            push_arg(&mut v, "f");
        },
        SearchFilter::Folders => {
            push_arg(&mut v, "--type");
            push_arg(&mut v, "d");
        },
        _ => {},
    }
    proof {
        assert(a =~= seq![query@, root@]);
        assert(b =~= a + (if program@ == "fdfind"@ {
            seq!["-H"@]
        } else {
            Seq::<Seq<char>>::empty()
        }));
        assert(c =~= b + seq!["--max-depth"@, depth_arg(global), "--color"@, "never"@]);
        assert(d =~= c + (if filter == SearchFilter::System {
            seq!["--hidden"@]
        } else {
            seq!["--one-file-system"@] + exclude_args()
        }));
        assert(strs(v@) =~= fd_args_spec(program@, query@, root@, global, filter));
    }
    v
}

/// The arguments of `find` for a search (see `find_args_spec`).
pub fn find_args(root: &str, query: &str, global: bool, filter: SearchFilter) -> (r: Vec<String>)
    ensures
        strs(r@) == find_args_spec(root@, query@, global, filter),
{
    let mut v: Vec<String> = Vec::new();
    push_arg(&mut v, root);
    push_arg(&mut v, "-maxdepth");
    push_arg(&mut v, depth_exec(global));
    let ghost a = strs(v@);
    match filter {
        SearchFilter::Files => {
            push_arg(&mut v, "-type");
            push_arg(&mut v, "f");
        },
        SearchFilter::Folders => {
            push_arg(&mut v, "-type");
            push_arg(&mut v, "d");
        },
        _ => {},
    }
    let ghost b = strs(v@);
    push_arg(&mut v, "-iname");
    let head = concat("*", query);
    let pat = concat(head.as_str(), "*");
    v.push(pat);
    proof {
        assert(a =~= seq![root@, "-maxdepth"@, depth_arg(global)]);
        assert(strs(v@) =~= b.push("-iname"@).push("*"@ + query@ + "*"@));
        assert(strs(v@) =~= find_args_spec(root@, query@, global, filter));
    }
    v
}

/// Where a running search stands.
#[derive(Clone, Copy, Debug, PartialEq, Eq, Structural)]
pub enum SearchPhase {
    /// Run `fd`.
    RunFd,
    /// Run `fdfind` (the name `fd` has on some systems).
    RunFdfind,
    /// Run `find`, the slow fallback.
    RunFind,
    /// Rank the output that was read; `fallback` when it came from `find`.
    Rank { fallback: bool },
    /// Give up without results.
    Stop,
}

/// How running a program went.
#[derive(Clone, Copy, Debug, PartialEq, Eq, Structural)]
pub enum RunOutcome {
    /// It could not be started.
    NotStarted,
    /// It ran, succeeded or not, and printed something or nothing.
    Finished { success: bool, printed: bool },
}

/// The next phase of a search after running the program of `phase`, which
/// went as `outcome`, when `cancelled` tells whether the search was cancelled
/// meanwhile: `fdfind` is tried when `fd` cannot start; the output of `fd` or
/// `fdfind` is used when it succeeded or printed something, else `find` runs;
/// the output of `find` is used when it ran; a cancelled search stops once a
/// program has answered.
pub open spec fn next_phase(phase: SearchPhase, outcome: RunOutcome, cancelled: bool) -> SearchPhase {
    match phase {
        SearchPhase::RunFd => match outcome {
            RunOutcome::NotStarted => SearchPhase::RunFdfind,
            RunOutcome::Finished { success, printed } => if cancelled {
                SearchPhase::Stop
            } else if success || printed {
                SearchPhase::Rank { fallback: false }
            } else {
                SearchPhase::RunFind
            },
        },
        SearchPhase::RunFdfind => if cancelled {
            SearchPhase::Stop
        } else {
            match outcome {
                RunOutcome::Finished { success, printed } if success || printed => SearchPhase::Rank {
                    fallback: false,
                },
                _ => SearchPhase::RunFind,
            }
        },
        SearchPhase::RunFind => match outcome {
            RunOutcome::NotStarted => SearchPhase::Stop,
            RunOutcome::Finished { .. } => if cancelled {
                SearchPhase::Stop
            } else {
                SearchPhase::Rank { fallback: true }
            },
        },
        _ => SearchPhase::Stop,
    }
}

/// The next phase of a search (see `next_phase`).
pub fn search_next(phase: SearchPhase, outcome: RunOutcome, cancelled: bool) -> (r: SearchPhase)
    ensures
        r == next_phase(phase, outcome, cancelled),
{
    match phase {
        SearchPhase::RunFd => match outcome {
            RunOutcome::NotStarted => SearchPhase::RunFdfind,
            RunOutcome::Finished { success, printed } => if cancelled {
                SearchPhase::Stop
            } else if success || printed {
                SearchPhase::Rank { fallback: false }
            } else {
                SearchPhase::RunFind
            },
        },
        SearchPhase::RunFdfind => if cancelled {
            SearchPhase::Stop
        } else {
            match outcome {
                RunOutcome::Finished { success, printed } => if success || printed {
                    SearchPhase::Rank { fallback: false }
                } else {
                    SearchPhase::RunFind
                },
                RunOutcome::NotStarted => SearchPhase::RunFind,
            }
        },
        SearchPhase::RunFind => match outcome {
            RunOutcome::NotStarted => SearchPhase::Stop,
            RunOutcome::Finished { .. } => if cancelled {
                SearchPhase::Stop
            } else {
                SearchPhase::Rank { fallback: true }
            },
        },
        _ => SearchPhase::Stop,
    }
}

/// A search runs at most three programs: from any phase, three steps reach
/// ranking or stopping.
pub proof fn law_search_ends(o1: RunOutcome, o2: RunOutcome, o3: RunOutcome, c1: bool, c2: bool, c3: bool)
    ensures
        ({
            let p1 = next_phase(SearchPhase::RunFd, o1, c1);
            let p2 = next_phase(p1, o2, c2);
            let p3 = next_phase(p2, o3, c3);
            p3 is Rank || p3 is Stop
        }),
{
}

/// The lines of `ls` that are not empty, in order.
pub open spec fn nonempty_lines(ls: Seq<Seq<char>>) -> Seq<Seq<char>>
    decreases ls.len(),
{
    if ls.len() == 0 {
        Seq::empty()
    } else {
        let r = nonempty_lines(ls.drop_last());
        if ls.last().len() > 0 {
            r.push(ls.last())
        } else {
            r
        }
    }
}

/// At most this many candidates go to the ranking.
pub open spec fn max_candidates() -> nat {
    500
}

/// The candidates in a search's output: its non-empty lines, at most 500.
pub open spec fn candidates_of(text: Seq<char>) -> Seq<Seq<char>> {
    let ne = nonempty_lines(lines_of(text));
    if ne.len() <= max_candidates() {
        ne
    } else {
        ne.take(max_candidates() as int)
    }
}

/// The candidates in a search's output (see `candidates_of`).
pub fn candidate_lines(text: &str) -> (r: Vec<String>)
    ensures
        strs(r@) == candidates_of(text@),
{
    let ls = lines(text);
    let ghost lv = ls@.map_values(|l: String| l@);
    assert(strs(ls@) =~= lv);
    let mut out: Vec<String> = Vec::new();
    let ghost mut full: Seq<Seq<char>> = Seq::empty();
    for i in 0..ls.len()
        invariant
            lv == strs(ls@),
            full == nonempty_lines(lv.take(i as int)),
            strs(out@) == if full.len() <= 500 {
                full
            } else {
                full.take(500)
            },
    {
        let l = &ls[i];
        proof {
            assert(lv.take(i + 1).drop_last() =~= lv.take(i as int));
            assert(lv.take(i + 1).last() == l@);
        }
        if !l.as_str().is_empty() {
            proof {
                assert(l@.len() > 0);
                full = full.push(l@);
            }
            if out.len() < 500 {
                let ghost before = strs(out@);
                out.push(l.clone());
                assert(strs(out@) =~= before.push(l@));
                assert(strs(out@) =~= if full.len() <= 500 {
                    full
                } else {
                    full.take(500)
                });
            } else {
                assert(full.take(500) =~= full.drop_last().take(500));
            }
        } else {
            proof {
                assert(l@.len() == 0);
            }
        }
    }
    proof {
        assert(lv.take(lv.len() as int) =~= lv);
    }
    out
}

/// The paths a search output stands for, ranked by how well their names match
/// `query`, best first (see `rank_search_paths`).
pub fn search_output_paths(query: &str, stdout: &Vec<u8>) -> (r: Vec<String>)
    ensures
        candidates_of(utf8_lossy(stdout@)).len() == 0 ==> r@.len() == 0,
        candidates_of(utf8_lossy(stdout@)).len() > 0 ==> strs(r@) == paths_for_ranking(
            nucleo_ranking(candidates_of(utf8_lossy(stdout@)).map_values(|s: Seq<char>| display_name(s)), query@),
            candidates_of(utf8_lossy(stdout@)),
        ),
{
    let text = decode_lossy(stdout);
    let raw = candidate_lines(text.as_str());
    let r = rank_search_paths(query, &raw);
    proof {
        let c = candidates_of(text@);
        assert(raw@.map_values(|s: String| s@) =~= c);
        assert(raw@.map_values(|s: String| display_name(s@)) =~= c.map_values(|s: Seq<char>| display_name(s)));
        assert(r@.map_values(|s: String| s@) =~= strs(r@));
    }
    r
}

/// A search hit, with what the file system says of it.
pub struct SearchHit {
    pub path: String,
    pub is_dir: bool,
    pub is_file: bool,
}

impl View for SearchHit {
    type V = (Seq<char>, bool, bool);

    open spec fn view(&self) -> (Seq<char>, bool, bool) {
        (self.path@, self.is_dir, self.is_file)
    }
}

/// Whether a hit is shown under `filter`: hidden paths (a component starting
/// with a dot) only under the system filter, and only directories or only
/// files under the folder and file filters.
pub open spec fn keep_hit(filter: SearchFilter, h: (Seq<char>, bool, bool)) -> bool {
    match filter {
        SearchFilter::All => !is_hidden_path(h.0),
        SearchFilter::Folders => h.1 && !is_hidden_path(h.0),
        SearchFilter::Files => h.2 && !is_hidden_path(h.0),
        SearchFilter::System => is_hidden_path(h.0),
    }
}

/// A hit as it is ordered: its path, whether it is a directory, its components.
pub open spec fn ranked_view(h: (Seq<char>, bool, bool)) -> (Seq<char>, bool, Seq<(u8, Seq<char>)>) {
    (h.0, h.1, components_of(h.0))
}

/// The hits kept under `filter`, in order, as they are ordered.
pub open spec fn kept_hits(hits: Seq<(Seq<char>, bool, bool)>, filter: SearchFilter) -> Seq<
    (Seq<char>, bool, Seq<(u8, Seq<char>)>),
>
    decreases hits.len(),
{
    if hits.len() == 0 {
        Seq::empty()
    } else {
        let r = kept_hits(hits.drop_last(), filter);
        if keep_hit(filter, hits.last()) {
            r.push(ranked_view(hits.last()))
        } else {
            r
        }
    }
}

/// Directories before other hits, then by path, component by component.
pub open spec fn hit_le(a: (Seq<char>, bool, Seq<(u8, Seq<char>)>), b: (Seq<char>, bool, Seq<(u8, Seq<char>)>)) -> bool {
    if a.1 != b.1 {
        a.1
    } else {
        comps_order(a.2, b.2) <= 0
    }
}

/// `results` shows the hits kept under `filter`, each once, directories first
/// and then in path order.
pub open spec fn ordered_results(results: Seq<Seq<char>>, hits: Seq<(Seq<char>, bool, bool)>, filter: SearchFilter) -> bool {
    exists|o: Seq<(Seq<char>, bool, Seq<(u8, Seq<char>)>)>|
        #[trigger] o.to_multiset() == kept_hits(hits, filter).to_multiset() && (forall|i: int, j: int|
            0 <= i < j < o.len() ==> hit_le(#[trigger] o[i], #[trigger] o[j])) && results == o.map_values(
            |x: (Seq<char>, bool, Seq<(u8, Seq<char>)>)| x.0,
        )
}

struct Ranked {
    path: String,
    is_dir: bool,
    comps: Vec<(u8, Vec<char>)>,
}

impl View for Ranked {
    type V = (Seq<char>, bool, Seq<(u8, Seq<char>)>);

    closed spec fn view(&self) -> (Seq<char>, bool, Seq<(u8, Seq<char>)>) {
        (self.path@, self.is_dir, comps_view(self.comps@))
    }
}

impl SortKey for Ranked {
    open spec fn key_le(a: (Seq<char>, bool, Seq<(u8, Seq<char>)>), b: (Seq<char>, bool, Seq<(u8, Seq<char>)>)) -> bool {
        hit_le(a, b)
    }

    fn le(&self, other: &Self) -> (r: bool) {
        if self.is_dir != other.is_dir {
            self.is_dir
        } else {
            let c = comps_order_exec(&self.comps, &other.comps);
            proof {
                assert(self.comps@.map_values(|c: (u8, Vec<char>)| (c.0, c.1@)) =~= comps_view(self.comps@));
                assert(other.comps@.map_values(|c: (u8, Vec<char>)| (c.0, c.1@)) =~= comps_view(other.comps@));
            }
            c <= 0
        }
    }

    proof fn lemma_total(a: (Seq<char>, bool, Seq<(u8, Seq<char>)>), b: (Seq<char>, bool, Seq<(u8, Seq<char>)>)) {
        lemma_comps_order_is_order();
        let f = |x: Seq<(u8, Seq<char>)>, y: Seq<(u8, Seq<char>)>| comps_order(x, y);
        assert(f(a.2, b.2) == -f(b.2, a.2));
    }

    proof fn lemma_trans(
        a: (Seq<char>, bool, Seq<(u8, Seq<char>)>),
        b: (Seq<char>, bool, Seq<(u8, Seq<char>)>),
        c: (Seq<char>, bool, Seq<(u8, Seq<char>)>),
    ) {
        lemma_comps_order_is_order();
        let f = |x: Seq<(u8, Seq<char>)>, y: Seq<(u8, Seq<char>)>| comps_order(x, y);
        assert(f(a.2, b.2) <= 0 && f(b.2, c.2) <= 0 ==> f(a.2, c.2) <= 0);
    }
}

fn keep_hit_exec(filter: SearchFilter, h: &SearchHit) -> (r: bool)
    ensures
        r == keep_hit(filter, h@),
{
    let hidden = is_hidden(h.path.as_str());
    match filter {
        SearchFilter::All => !hidden,
        SearchFilter::Folders => h.is_dir && !hidden,
        SearchFilter::Files => h.is_file && !hidden,
        SearchFilter::System => hidden,
    }
}

/// The paths of the hits kept under `filter`, directories first, then in path
/// order (see `ordered_results`).
pub fn order_hits(hits: &Vec<SearchHit>, filter: SearchFilter) -> (r: Vec<String>)
    ensures
        ordered_results(strs(r@), views(hits@), filter),
{
    let ghost hv = views(hits@);
    let mut items: Vec<Ranked> = Vec::new();
    for i in 0..hits.len()
        invariant
            hv == views(hits@),
            views(items@) == kept_hits(hv.take(i as int), filter),
    {
        let h = &hits[i];
        proof {
            assert(hv.take(i + 1).drop_last() =~= hv.take(i as int));
            assert(hv.take(i + 1).last() == h@);
        }
        if keep_hit_exec(filter, h) {
            let comps = components(h.path.as_str());
            let it = Ranked { path: h.path.clone(), is_dir: h.is_dir, comps };
            let ghost before = views(items@);
            items.push(it);
            proof {
                assert(it@ == ranked_view(h@));
                assert(views(items@) =~= before.push(it@));
            }
        }
    }
    proof {
        assert(hv.take(hv.len() as int) =~= hv);
    }
    let sorted = sort_by_key(items);
    let ghost o = views(sorted@);
    let mut out: Vec<String> = Vec::new();
    for i in 0..sorted.len()
        invariant
            o == views(sorted@),
            strs(out@) == o.take(i as int).map_values(|x: (Seq<char>, bool, Seq<(u8, Seq<char>)>)| x.0),
    {
        let ghost before = strs(out@);
        out.push(sorted[i].path.clone());
        proof {
            assert(o[i as int].0 == sorted@[i as int].path@);
            assert(o.take(i + 1) =~= o.take(i as int).push(o[i as int]));
            assert(strs(out@) =~= before.push(o[i as int].0));
            assert(o.take(i + 1).map_values(|x: (Seq<char>, bool, Seq<(u8, Seq<char>)>)| x.0) =~= o.take(
                i as int,
            ).map_values(|x: (Seq<char>, bool, Seq<(u8, Seq<char>)>)| x.0).push(o[i as int].0));
        }
    }
    proof {
        assert(o.take(o.len() as int) =~= o);
        assert(forall|i: int, j: int| 0 <= i < j < o.len() ==> hit_le(#[trigger] o[i], #[trigger] o[j]));
        assert(ordered_results(strs(out@), hv, filter));
    }
    out
}

impl App {
    fn set_search_results(&mut self, results: Vec<String>)
        ensures
            final(self).search_results == results,
            final(self).search_cursor == 0,
            final(self).search_mode == old(self).search_mode,
            final(self).search_query == old(self).search_query,
            final(self).search_filter == old(self).search_filter,
            final(self).global_search == old(self).global_search,
            same_except(*old(self), *final(self), g_search(), 0, 0),
    {
        self.search_results = results;
        self.search_cursor = 0;
    }

    /// The running search delivered `hits`: the results become the hits kept
    /// under the current filter, directories first, then in path order, and the
    /// search cursor goes to the first.
    pub fn apply_search_results(&mut self, hits: Vec<SearchHit>)
        ensures
            ordered_results(strs(final(self).search_results@), views(hits@), old(self).search_filter),
            final(self).search_cursor == 0,
            final(self).search_mode == old(self).search_mode,
            final(self).search_query == old(self).search_query,
            final(self).search_filter == old(self).search_filter,
            final(self).global_search == old(self).global_search,
            same_except(*old(self), *final(self), g_search(), 0, 0),
    {
        let r = order_hits(&hits, self.search_filter);
        self.set_search_results(r);
    }
}

proof fn lemma_kept_member(hits: Seq<(Seq<char>, bool, bool)>, filter: SearchFilter, x: (Seq<char>, bool, Seq<(u8, Seq<char>)>))
    requires
        kept_hits(hits, filter).contains(x),
    ensures
        exists|j: int| 0 <= j < hits.len() && ranked_view(#[trigger] hits[j]) == x && keep_hit(filter, hits[j]),
    decreases hits.len(),
{
    let r = kept_hits(hits.drop_last(), filter);
    if keep_hit(filter, hits.last()) && x == ranked_view(hits.last()) {
        assert(ranked_view(hits[hits.len() - 1]) == x);
    } else {
        if keep_hit(filter, hits.last()) {
            let k = choose|k: int| 0 <= k < r.push(ranked_view(hits.last())).len() && r.push(ranked_view(hits.last()))[k] == x;
            assert(k < r.len());
            assert(r[k] == x);
        }
        assert(r.contains(x));
        lemma_kept_member(hits.drop_last(), filter, x);
        let j = choose|j: int| 0 <= j < hits.drop_last().len() && ranked_view(#[trigger] hits.drop_last()[j]) == x
            && keep_hit(filter, hits.drop_last()[j]);
        assert(hits[j] == hits.drop_last()[j]);
    }
}

/// Every search result is the path of a hit the filter keeps: under the
/// system filter only hidden paths are shown, under the others never a hidden
/// one, and the folder and file filters show only directories or only files.
pub proof fn law_results_follow_filter(
    results: Seq<Seq<char>>,
    hits: Seq<(Seq<char>, bool, bool)>,
    filter: SearchFilter,
    i: int,
)
    requires
        ordered_results(results, hits, filter),
        0 <= i < results.len(),
    ensures
        exists|j: int| 0 <= j < hits.len() && (#[trigger] hits[j]).0 == results[i] && keep_hit(filter, hits[j]),
{
    broadcast use vstd::seq_lib::group_to_multiset_ensures;

    let o = choose|o: Seq<(Seq<char>, bool, Seq<(u8, Seq<char>)>)>|
        #[trigger] o.to_multiset() == kept_hits(hits, filter).to_multiset() && (forall|i: int, j: int|
            0 <= i < j < o.len() ==> hit_le(#[trigger] o[i], #[trigger] o[j])) && results == o.map_values(
            |x: (Seq<char>, bool, Seq<(u8, Seq<char>)>)| x.0,
        );
    let x = o[i];
    assert(o.contains(x));
    assert(o.to_multiset().count(x) > 0);
    assert(kept_hits(hits, filter).to_multiset().count(x) > 0);
    assert(kept_hits(hits, filter).contains(x));
    lemma_kept_member(hits, filter, x);
    let j = choose|j: int| 0 <= j < hits.len() && ranked_view(#[trigger] hits[j]) == x && keep_hit(filter, hits[j]);
    assert(hits[j].0 == results[i]);
}

proof fn lemma_nonempty_lines(ls: Seq<Seq<char>>)
    ensures
        forall|i: int| 0 <= i < nonempty_lines(ls).len() ==> (#[trigger] nonempty_lines(ls)[i]).len() > 0,
    decreases ls.len(),
{
    if ls.len() > 0 {
        lemma_nonempty_lines(ls.drop_last());
        let r = nonempty_lines(ls.drop_last());
        assert forall|i: int| 0 <= i < nonempty_lines(ls).len() implies (#[trigger] nonempty_lines(ls)[i]).len() > 0 by {
            if i < r.len() {
                assert(nonempty_lines(ls)[i] == r[i]);
            }
        }
    }
}

/// A search ranks at most 500 candidates, and no empty line among them.
pub proof fn law_candidates_bounded(text: Seq<char>)
    ensures
        candidates_of(text).len() <= 500,
        forall|i: int| 0 <= i < candidates_of(text).len() ==> (#[trigger] candidates_of(text)[i]).len() > 0,
{
    let ne = nonempty_lines(lines_of(text));
    lemma_nonempty_lines(lines_of(text));
    if ne.len() > 500 {
        assert forall|i: int| 0 <= i < candidates_of(text).len() implies (#[trigger] candidates_of(text)[i]).len() > 0 by {
            assert(candidates_of(text)[i] == ne[i]);
        }
    }
}

/// The warning sent when a search had to fall back to `find`.
pub open spec fn fd_missing_message() -> Seq<char> {
    "⚠ fd not installed — using slow fallback (install fd)"@
}

/// The warning sent when a search had to fall back to `find`.
pub fn fd_missing_warning() -> (r: String)
    ensures
        r@ == fd_missing_message(),
{
    to_owned_string("⚠ fd not installed — using slow fallback (install fd)")
}

/// The fallback warning is recognised as the missing-`fd` message, so it is
/// shown once: after it was shown, receiving it again leaves the status line.
pub proof fn law_fallback_warning_once(a: App, b: App, now: u64)
    requires
        a.warned_no_fd,
        crate::app::status_received(a, b, fd_missing_message(), now),
    ensures
        crate::app::same_status(a, b),
{
    reveal_strlit("⚠ fd not installed — using slow fallback (install fd)");
    reveal_strlit("fd not installed");
    let m = fd_missing_message();
    let t = "fd not installed"@;
    assert(m.subrange(2, 2 + t.len() as int) =~= t);
    assert(crate::text::occurs_at(m, t, 2));
}

/// The folder filter restricts `fd` to directories and the file filter to
/// regular files, as `find` is restricted: `fd` ends with `--type` and the
/// letter, and `find` gets `-type` and the same letter after its depth.
pub proof fn law_type_filter_agrees(
    program: Seq<char>,
    query: Seq<char>,
    root: Seq<char>,
    global: bool,
    filter: SearchFilter,
)
    ensures
        ({
            let fd = fd_args_spec(program, query, root, global, filter);
            let find = find_args_spec(root, query, global, filter);
            &&& filter == SearchFilter::Folders ==> fd.len() >= 2 && fd[fd.len() - 2] == "--type"@
                && fd.last() == "d"@ && find[3] == "-type"@ && find[4] == "d"@
            &&& filter == SearchFilter::Files ==> fd.len() >= 2 && fd[fd.len() - 2] == "--type"@
                && fd.last() == "f"@ && find[3] == "-type"@ && find[4] == "f"@
        }),
{
}

} // verus!
