//! The completion resolver: walks a builtin's completion tree, consuming one
//! already-typed argument per level, and yields either a candidate list or a
//! request for a filesystem listing, which only the embedder can satisfy.
//! The final argument is the partial token being completed.

use vstd::prelude::*;

use crate::builtin::BrBuiltin;
use crate::builtin::DynamicCompletion;
use crate::builtin::TabCompletion;
use crate::builtin::TabCompletionType;
use crate::builtins::env_prefixed;
use crate::builtins::split_env_prefix;
use crate::builtins::strings_view;
use crate::builtins::strip_env_name;
use crate::chars::chars_start_with;
use crate::chars::chars_to_string;
use crate::chars::str_to_chars;
use crate::context::Context;
use crate::pipeline::find_builtin;
use crate::strmap::StrMap;

verus! {

/// Which directory entries a path completion may offer.
#[derive(Debug, Clone, Copy, PartialEq, Eq, Structural)]
pub enum FileType {
    File,
    Directory,
    Both,
}

impl FileType {
    /// The entry kind a completion-tree node asks for.
    pub fn from_tab(tab: &TabCompletionType) -> (r: FileType)
        ensures
            r == spec_file_type(*tab),
    {
        match tab {
            TabCompletionType::Directory(_) => FileType::Directory,
            TabCompletionType::File(_) => FileType::File,
            _ => FileType::Both,
        }
    }
}

pub open spec fn spec_file_type(tab: TabCompletionType) -> FileType {
    match tab {
        TabCompletionType::Directory(_) => FileType::Directory,
        TabCompletionType::File(_) => FileType::File,
        _ => FileType::Both,
    }
}

/// What resolving a completion tree comes to: a finished candidate list, or
/// a request to list a directory for path completion.
#[derive(Debug)]
pub enum CompResult {
    Done(Vec<String>),
    NeedsPath(FileType, String),
}

pub enum CompOutcome {
    Done(Seq<Seq<char>>),
    NeedsPath(FileType, Seq<char>),
}

impl View for CompResult {
    type V = CompOutcome;

    open spec fn view(&self) -> CompOutcome {
        match self {
            CompResult::Done(v) => CompOutcome::Done(strings_view(v@)),
            CompResult::NeedsPath(k, a) => CompOutcome::NeedsPath(*k, a@),
        }
    }
}

/// Whether `x` begins with `p`.
pub open spec fn has_prefix(x: Seq<char>, p: Seq<char>) -> bool {
    p.len() <= x.len() && x.take(p.len() as int) == p
}

/// The items that begin with the prefix, in their given order.
pub open spec fn filter_prefix(items: Seq<Seq<char>>, prefix: Seq<char>) -> Seq<Seq<char>>
    decreases items.len(),
{
    if items.len() == 0 {
        Seq::empty()
    } else {
        let rest = filter_prefix(items.drop_last(), prefix);
        if has_prefix(items.last(), prefix) {
            rest.push(items.last())
        } else {
            rest
        }
    }
}

/// Keeps the strings that begin with the prefix.
pub fn filter_prefix_strings(items: &Vec<String>, prefix: &String) -> (r: Vec<String>)
    ensures
        strings_view(r@) == filter_prefix(strings_view(items@), prefix@),
{
    let pc = str_to_chars(prefix.as_str());
    let n = items.len();
    let mut r: Vec<String> = Vec::new();
    let mut i: usize = 0;
    while i < n
        invariant
            n == items@.len(),
            i <= n,
            pc@ == prefix@,
            strings_view(r@) == filter_prefix(strings_view(items@).take(i as int), prefix@),
        decreases n - i,
    {
        let ghost prev = strings_view(r@);
        let ic = str_to_chars(items[i].as_str());
        if chars_start_with(&ic, &pc) {
            r.push(items[i].clone());
        }
        i = i + 1;
        proof {
            let s = strings_view(items@);
            assert(s.take(i as int).drop_last() =~= s.take(i - 1));
            assert(s.take(i as int).last() == s[i - 1]);
            if has_prefix(s[i - 1], prefix@) {
                assert(strings_view(r@) =~= prev.push(s[i - 1]));
            }
        }
    }
    proof {
        assert(strings_view(items@).take(n as int) =~= strings_view(items@));
    }
    r
}

/// The first tree edge labelled `a`.
pub open spec fn spec_find_child(cs: Seq<TabCompletion>, a: Seq<char>) -> Option<int>
    decreases cs.len(),
{
    if cs.len() == 0 {
        None
    } else if cs[0].arg@ == a {
        Some(0)
    } else {
        match spec_find_child(cs.skip(1), a) {
            Some(j) => Some(j + 1),
            None => None,
        }
    }
}

proof fn lemma_find_child_props(cs: Seq<TabCompletion>, a: Seq<char>)
    ensures
        match spec_find_child(cs, a) {
            Some(j) => 0 <= j < cs.len() && cs[j].arg@ == a && (forall|k: int|
                0 <= k < j ==> cs[k].arg@ != a),
            None => forall|k: int| 0 <= k < cs.len() ==> cs[k].arg@ != a,
        },
    decreases cs.len(),
{
    if cs.len() > 0 && cs[0].arg@ != a {
        lemma_find_child_props(cs.skip(1), a);
        assert(forall|k: int| 1 <= k < cs.len() ==> cs[k] == cs.skip(1)[k - 1]);
    }
}

fn find_child(cs: &Vec<TabCompletion>, a: &String) -> (r: Option<usize>)
    ensures
        match r {
            Some(j) => spec_find_child(cs@, a@) == Some(j as int),
            None => spec_find_child(cs@, a@) is None,
        },
{
    proof {
        lemma_find_child_props(cs@, a@);
    }
    let n = cs.len();
    let mut i: usize = 0;
    while i < n
        invariant
            n == cs@.len(),
            i <= n,
            forall|k: int| 0 <= k < i ==> cs@[k].arg@ != a@,
        decreases n - i,
    {
        if crate::chars::str_eq(cs[i].arg.as_str(), a.as_str()) {
            proof {
                lemma_find_child_props(cs@, a@);
            }
            return Some(i);
        }
        i = i + 1;
    }
    None
}

/// What a computed completion source yields: for at most one remaining
/// argument, the stored names that begin with it; more arguments yield
/// nothing. A `VarList` prefix `ENV:` switches to the environment snapshot's
/// names, matched against the stripped prefix.
pub open spec fn spec_dynamic(
    d: DynamicCompletion,
    args: Seq<Seq<char>>,
    alias_keys: Seq<Seq<char>>,
    var_names: Seq<Seq<char>>,
    env_names: Seq<Seq<char>>,
) -> Seq<Seq<char>> {
    if args.len() <= 1 {
        let cur = if args.len() == 1 {
            args[0]
        } else {
            Seq::empty()
        };
        match d {
            DynamicCompletion::AliasList => filter_prefix(alias_keys, cur),
            DynamicCompletion::VarList => if env_prefixed(cur) {
                filter_prefix(env_names, strip_env_name(cur))
            } else {
                filter_prefix(var_names, cur)
            },
        }
    } else {
        Seq::empty()
    }
}

/// The stored keys of a map, in entry order.
pub open spec fn spec_keys(m: StrMap) -> Seq<Seq<char>> {
    m.entries@.map_values(|e: (String, String)| e.0@)
}

/// The candidate labels of a list of tree edges.
pub open spec fn child_args(cs: Seq<TabCompletion>) -> Seq<Seq<char>> {
    cs.map_values(|c: TabCompletion| c.arg@)
}

/// Resolving a tree against the argument tail `args.skip(i)`: a terminal
/// node offers nothing; a path node defers its last argument to the
/// filesystem and otherwise descends by label; a static node offers its
/// labels filtered by the partial final argument, descending by label
/// before that; a dynamic node computes its candidates from the stores.
pub open spec fn spec_get_comp(
    t: TabCompletionType,
    args: Seq<Seq<char>>,
    alias_keys: Seq<Seq<char>>,
    var_names: Seq<Seq<char>>,
    env_names: Seq<Seq<char>>,
) -> CompOutcome
    decreases args.len(),
{
    match t {
        TabCompletionType::Terminal => CompOutcome::Done(Seq::empty()),
        TabCompletionType::Directory(cs) => if args.len() == 0 {
            CompOutcome::Done(Seq::empty())
        } else if args.len() == 1 {
            CompOutcome::NeedsPath(FileType::Directory, args[0])
        } else {
            match spec_find_child(cs@, args[0]) {
                Some(j) => spec_get_comp(
                    cs@[j].subargs,
                    args.skip(1),
                    alias_keys,
                    var_names,
                    env_names,
                ),
                None => CompOutcome::Done(Seq::empty()),
            }
        },
        TabCompletionType::File(cs) => if args.len() == 0 {
            CompOutcome::Done(Seq::empty())
        } else if args.len() == 1 {
            CompOutcome::NeedsPath(FileType::File, args[0])
        } else {
            match spec_find_child(cs@, args[0]) {
                Some(j) => spec_get_comp(
                    cs@[j].subargs,
                    args.skip(1),
                    alias_keys,
                    var_names,
                    env_names,
                ),
                None => CompOutcome::Done(Seq::empty()),
            }
        },
        TabCompletionType::FileOrDirectory(cs) => if args.len() == 0 {
            CompOutcome::Done(Seq::empty())
        } else if args.len() == 1 {
            CompOutcome::NeedsPath(FileType::Both, args[0])
        } else {
            match spec_find_child(cs@, args[0]) {
                Some(j) => spec_get_comp(
                    cs@[j].subargs,
                    args.skip(1),
                    alias_keys,
                    var_names,
                    env_names,
                ),
                None => CompOutcome::Done(Seq::empty()),
            }
        },
        TabCompletionType::Static(cs) => if args.len() == 0 {
            CompOutcome::Done(child_args(cs@))
        } else if args.len() == 1 {
            CompOutcome::Done(filter_prefix(child_args(cs@), args[0]))
        } else {
            match spec_find_child(cs@, args[0]) {
                Some(j) => spec_get_comp(
                    cs@[j].subargs,
                    args.skip(1),
                    alias_keys,
                    var_names,
                    env_names,
                ),
                None => CompOutcome::Done(Seq::empty()),
            }
        },
        TabCompletionType::Dynamic(d) => CompOutcome::Done(
            spec_dynamic(d, args, alias_keys, var_names, env_names),
        ),
    }
}

fn done_empty() -> (r: CompResult)
    ensures
        r@ == CompOutcome::Done(Seq::<Seq<char>>::empty()),
{
    let v: Vec<String> = Vec::new();
    proof {
        assert(strings_view(v@) =~= Seq::<Seq<char>>::empty());
    }
    CompResult::Done(v)
}

/// Walks the completion tree along `args[idx..]`.
fn get_comp_at(t: &TabCompletionType, args: &Vec<String>, idx: usize, ctx: &Context) -> (r:
    CompResult)
    requires
        idx < args@.len(),
    ensures
        r@ == spec_get_comp(
            *t,
            strings_view(args@).skip(idx as int),
            spec_keys(ctx.aliases),
            spec_keys(ctx.variables),
            spec_keys(ctx.env_vars),
        ),
    decreases args@.len() - idx,
{
    let ghost tail = strings_view(args@).skip(idx as int);
    let last = idx == args.len() - 1;
    match t {
        TabCompletionType::Terminal => done_empty(),
        TabCompletionType::Directory(cs) | TabCompletionType::File(cs)
            | TabCompletionType::FileOrDirectory(cs) => {
            if last {
                proof {
                    assert(tail[0] == strings_view(args@)[idx as int]);
                }
                CompResult::NeedsPath(FileType::from_tab(t), args[idx].clone())
            } else {
                match find_child(cs, &args[idx]) {
                    Some(j) => {
                        proof {
                            lemma_find_child_props(cs@, args@[idx as int]@);
                        }
                        let r = get_comp_at(&cs[j].subargs, args, idx + 1, ctx);
                        proof {
                            assert(tail.skip(1) =~= strings_view(args@).skip(idx + 1));
                        }
                        r
                    },
                    None => done_empty(),
                }
            }
        },
        TabCompletionType::Static(cs) => {
            if last {
                let n = cs.len();
                let mut labels: Vec<String> = Vec::new();
                let mut i: usize = 0;
                while i < n
                    invariant
                        n == cs@.len(),
                        i <= n,
                        strings_view(labels@) == child_args(cs@).take(i as int),
                    decreases n - i,
                {
                    let ghost prev = strings_view(labels@);
                    labels.push(cs[i].arg.clone());
                    i = i + 1;
                    proof {
                        assert(strings_view(labels@) =~= prev.push(cs@[i - 1].arg@));
                        assert(child_args(cs@).take(i as int) =~= child_args(cs@).take(i - 1).push(
                            child_args(cs@)[i - 1],
                        ));
                    }
                }
                proof {
                    assert(child_args(cs@).take(n as int) =~= child_args(cs@));
                    assert(tail[0] == strings_view(args@)[idx as int]);
                }
                CompResult::Done(filter_prefix_strings(&labels, &args[idx]))
            } else {
                match find_child(cs, &args[idx]) {
                    Some(j) => {
                        proof {
                            lemma_find_child_props(cs@, args@[idx as int]@);
                        }
                        let r = get_comp_at(&cs[j].subargs, args, idx + 1, ctx);
                        proof {
                            assert(tail.skip(1) =~= strings_view(args@).skip(idx + 1));
                        }
                        r
                    },
                    None => done_empty(),
                }
            }
        },
        TabCompletionType::Dynamic(d) => {
            if !last {
                proof {
                    assert(tail.len() > 1);
                }
                return done_empty();
            }
            proof {
                assert(tail[0] == strings_view(args@)[idx as int]);
            }
            let cur = &args[idx];
            match d {
                DynamicCompletion::AliasList => {
                    let keys = ctx.aliases.keys();
                    proof {
                        assert(strings_view(keys@) =~= spec_keys(ctx.aliases));
                    }
                    CompResult::Done(filter_prefix_strings(&keys, cur))
                },
                DynamicCompletion::VarList => {
                    let (stripped, is_env) = split_env_prefix(cur);
                    if is_env {
                        let keys = ctx.env_vars.keys();
                        proof {
                            assert(strings_view(keys@) =~= spec_keys(ctx.env_vars));
                        }
                        CompResult::Done(filter_prefix_strings(&keys, &stripped))
                    } else {
                        let keys = ctx.variables.keys();
                        proof {
                            assert(strings_view(keys@) =~= spec_keys(ctx.variables));
                        }
                        CompResult::Done(filter_prefix_strings(&keys, &stripped))
                    }
                },
            }
        },
    }
}

/// Resolves a builtin's completion tree along the argument list, whose last
/// element is the partial token being completed.
pub fn get_comp(t: &TabCompletionType, args: &Vec<String>, ctx: &Context) -> (r: CompResult)
    requires
        args@.len() >= 1,
    ensures
        r@ == spec_get_comp(
            *t,
            strings_view(args@),
            spec_keys(ctx.aliases),
            spec_keys(ctx.variables),
            spec_keys(ctx.env_vars),
        ),
{
    let r = get_comp_at(t, args, 0, ctx);
    proof {
        assert(strings_view(args@).skip(0) =~= strings_view(args@));
    }
    r
}

/// The resolver's entry: arguments typed after a known builtin walk its
/// tree; an unknown command falls back to path completion of the final
/// token.
pub fn get_tab_completion(cmd: String, args: Vec<String>, ctx: &Context) -> (r: CompResult)
    requires
        args@.len() >= 1,
    ensures
        ({
            match spec_find_builtin_index(ctx.builtins@, cmd@) {
                Some(j) => r@ == spec_get_comp(
                    ctx.builtins@[j].tab_completion,
                    strings_view(args@),
                    spec_keys(ctx.aliases),
                    spec_keys(ctx.variables),
                    spec_keys(ctx.env_vars),
                ),
                None => r@ == CompOutcome::NeedsPath(
                    FileType::Both,
                    strings_view(args@).last(),
                ),
            }
        }),
{
    proof {
        lemma_find_builtin_index(ctx.builtins@, cmd@);
    }
    match find_builtin(&ctx.builtins, cmd.as_str()) {
        Some(j) => {
            let r = get_comp(&ctx.builtins[j].tab_completion, &args, ctx);
            proof {
                lemma_find_builtin_index(ctx.builtins@, cmd@);
            }
            r
        },
        None => {
            let arg = args[args.len() - 1].clone();
            CompResult::NeedsPath(FileType::Both, arg)
        },
    }
}

/// One directory entry as the host lists it.
#[derive(Debug, Clone)]
pub struct DirEntry {
    pub name: String,
    pub is_dir: bool,
    pub is_file: bool,
}

pub struct DirEntryView {
    pub name: Seq<char>,
    pub is_dir: bool,
    pub is_file: bool,
}

impl View for DirEntry {
    type V = DirEntryView;

    open spec fn view(&self) -> DirEntryView {
        DirEntryView { name: self.name@, is_dir: self.is_dir, is_file: self.is_file }
    }
}

pub open spec fn entries_view(s: Seq<DirEntry>) -> Seq<DirEntryView> {
    s.map_values(|e: DirEntry| e@)
}

pub open spec fn kind_matches(k: FileType, e: DirEntryView) -> bool {
    match k {
        FileType::Directory => e.is_dir,
        FileType::File => e.is_file,
        FileType::Both => true,
    }
}

/// Where a path argument points: the directory to list, the entry prefix to
/// match, the path text to prepend to each candidate, and whether to prepend
/// it at all (a bare name completes in the working directory and is shown
/// bare).
#[derive(Debug, Clone)]
pub struct PathQuery {
    pub dir: String,
    pub entry_prefix: String,
    pub shown_prefix: String,
    pub prepend: bool,
}

/// Index of the last `/`, if any.
pub open spec fn last_slash(s: Seq<char>) -> Option<int>
    decreases s.len(),
{
    if s.len() == 0 {
        None
    } else if s.last() == '/' {
        Some(s.len() - 1)
    } else {
        last_slash(s.drop_last())
    }
}

proof fn lemma_last_slash_bounds(s: Seq<char>)
    ensures
        match last_slash(s) {
            Some(p) => 0 <= p < s.len() && s[p] == '/' && (forall|k: int|
                p < k < s.len() ==> s[k] != '/'),
            None => forall|k: int| 0 <= k < s.len() ==> s[k] != '/',
        },
    decreases s.len(),
{
    if s.len() > 0 && s.last() != '/' {
        lemma_last_slash_bounds(s.drop_last());
        assert(forall|k: int| 0 <= k < s.len() - 1 ==> s.drop_last()[k] == s[k]);
    }
}

/// The expanded argument: a leading `~` or `~/` becomes the home directory
/// when one is known.
pub open spec fn spec_expanded_arg(arg: Seq<char>, home: Option<Seq<char>>) -> Seq<char> {
    crate::parser::expand_word(arg, home)
}

/// Whether the home directory was substituted in, so that candidates fold it
/// back to `~`.
pub open spec fn spec_home_trimmed(arg: Seq<char>, home: Option<Seq<char>>) -> bool {
    arg.len() > 0 && arg[0] == '~' && (arg.len() == 1 || arg[1] == '/') && home is Some
}

/// The path text shown before each candidate: the directory part, with a
/// substituted home directory folded back to `~`.
pub open spec fn spec_shown_prefix(dir: Seq<char>, trimmed: bool, home: Option<Seq<char>>) -> Seq<
    char,
> {
    if trimmed && home is Some && dir.len() >= home->0.len() && dir.take(home->0.len() as int)
        == home->0 {
        seq!['~'] + dir.skip(home->0.len() as int)
    } else {
        dir
    }
}

/// Splits a path argument for completion: the part before the last `/` is
/// the directory to list (the working directory for a bare name), the part
/// after it is the entry prefix to match.
pub fn split_path_arg(arg: &String, home: &Option<String>) -> (q: PathQuery)
    ensures
        ({
            let x = spec_expanded_arg(arg@, crate::parser::home_view(*home));
            let trimmed = spec_home_trimmed(arg@, crate::parser::home_view(*home));
            match last_slash(x) {
                Some(p) => q.dir@ == x.take(p) && q.entry_prefix@ == x.skip(p + 1) && q.prepend
                    && q.shown_prefix@ == spec_shown_prefix(
                    x.take(p),
                    trimmed,
                    crate::parser::home_view(*home),
                ),
                None => q.dir@ == "."@ && q.entry_prefix@ == x && !q.prepend && q.shown_prefix@
                    == Seq::<char>::empty(),
            }
        }),
{
    let a = str_to_chars(arg.as_str());
    let tilde_form = a.len() > 0 && a[0] == '~' && (a.len() == 1 || a[1] == '/');
    let mut x: Vec<char> = Vec::new();
    let mut trimmed = false;
    if tilde_form {
        match home {
            Some(h) => {
                let mut hc = str_to_chars(h.as_str());
                let mut rest = crate::chars::copy_char_range(&a, 1, a.len());
                x.append(&mut hc);
                x.append(&mut rest);
                trimmed = true;
                proof {
                    assert(x@ =~= spec_expanded_arg(
                        arg@,
                        crate::parser::home_view(*home),
                    ));
                }
            },
            None => {
                let mut ac = a;
                x.append(&mut ac);
                proof {
                    assert(x@ =~= arg@);
                }
            },
        }
    } else {
        let mut ac = a;
        x.append(&mut ac);
        proof {
            assert(x@ =~= arg@);
        }
    }
    proof {
        lemma_last_slash_bounds(x@);
    }
    let n = x.len();
    let mut slash: Option<usize> = None;
    let mut j: usize = n;
    loop
        invariant_except_break
            n == x@.len(),
            j <= n,
            slash is None,
            forall|k: int| j <= k < n ==> x@[k] != '/',
        ensures
            match slash {
                Some(p) => p < n && x@[p as int] == '/' && (forall|k: int|
                    p < k < n ==> x@[k] != '/'),
                None => forall|k: int| 0 <= k < n ==> x@[k] != '/',
            },
        decreases j,
    {
        if j == 0 {
            break ;
        }
        j = j - 1;
        if x[j] == '/' {
            slash = Some(j);
            break ;
        }
    }
    proof {
        match slash {
            Some(p) => {
                match last_slash(x@) {
                    Some(q) => {
                        if q < p {
                            assert(x@[p as int] != '/');
                        }
                        if (p as int) < q {
                            assert(x@[q] != '/');
                        }
                        assert(q == p as int);
                    },
                    None => {
                        assert(x@[p as int] != '/');
                    },
                }
            },
            None => {
                assert(last_slash(x@) is None) by {
                    match last_slash(x@) {
                        Some(q) => {
                            assert(x@[q] != '/');
                        },
                        None => {},
                    }
                }
            },
        }
    }
    match slash {
        Some(p) => {
            let dirc = crate::chars::copy_char_range(&x, 0, p);
            let entc = crate::chars::copy_char_range(&x, p + 1, x.len());
            let dir = chars_to_string(&dirc);
            let entry_prefix = chars_to_string(&entc);
            let shown_prefix = if trimmed {
                match home {
                    Some(h) => {
                        let hc = str_to_chars(h.as_str());
                        if chars_start_with(&dirc, &hc) {
                            let mut folded: Vec<char> = vec!['~'];
                            let mut tail = crate::chars::copy_char_range(
                                &dirc,
                                hc.len(),
                                dirc.len(),
                            );
                            folded.append(&mut tail);
                            proof {
                                assert(folded@ =~= seq!['~'] + dirc@.skip(hc@.len() as int));
                            }
                            chars_to_string(&folded)
                        } else {
                            dir.clone()
                        }
                    },
                    None => dir.clone(),
                }
            } else {
                dir.clone()
            };
            PathQuery { dir, entry_prefix, shown_prefix, prepend: true }
        },
        None => {
            PathQuery {
                dir: ".".to_owned(),
                entry_prefix: chars_to_string(&x),
                shown_prefix: String::new(),
                prepend: false,
            }
        },
    }
}

/// A candidate: the shown path prefix, a slash, and the entry's name — or
/// the bare name when nothing is prepended.
pub open spec fn spec_candidate(
    name: Seq<char>,
    shown: Seq<char>,
    prepend: bool,
) -> Seq<char> {
    if prepend {
        shown + seq!['/'] + name
    } else {
        name
    }
}

/// The candidates a listing yields, in listing order: entries of the right
/// kind whose names begin with the prefix, each re-prepended into a complete
/// path.
pub open spec fn spec_file_candidates(
    kind: FileType,
    entries: Seq<DirEntryView>,
    entry_prefix: Seq<char>,
    shown: Seq<char>,
    prepend: bool,
) -> Seq<Seq<char>>
    decreases entries.len(),
{
    if entries.len() == 0 {
        Seq::empty()
    } else {
        let rest = spec_file_candidates(kind, entries.drop_last(), entry_prefix, shown, prepend);
        let e = entries.last();
        if kind_matches(kind, e) && has_prefix(e.name, entry_prefix) {
            rest.push(spec_candidate(e.name, shown, prepend))
        } else {
            rest
        }
    }
}

/// Filters a host-provided directory listing into complete, substitutable
/// path candidates, sorted lexicographically.
pub fn file_candidates(kind: FileType, q: &PathQuery, entries: &Vec<DirEntry>) -> (r: Vec<String>)
    ensures
        crate::chars::sorted_strs(crate::chars::views_of(r@)),
        crate::chars::views_of(r@).to_multiset() == spec_file_candidates(
            kind,
            entries_view(entries@),
            q.entry_prefix@,
            q.shown_prefix@,
            q.prepend,
        ).to_multiset(),
{
    let pc = str_to_chars(q.entry_prefix.as_str());
    let n = entries.len();
    let mut out: Vec<String> = Vec::new();
    let mut i: usize = 0;
    while i < n
        invariant
            n == entries@.len(),
            i <= n,
            pc@ == q.entry_prefix@,
            crate::chars::views_of(out@) == spec_file_candidates(
                kind,
                entries_view(entries@).take(i as int),
                q.entry_prefix@,
                q.shown_prefix@,
                q.prepend,
            ),
        decreases n - i,
    {
        let ghost prev = crate::chars::views_of(out@);
        let e = &entries[i];
        let kind_ok = match kind {
            FileType::Directory => e.is_dir,
            FileType::File => e.is_file,
            FileType::Both => true,
        };
        let nc = str_to_chars(e.name.as_str());
        if kind_ok && chars_start_with(&nc, &pc) {
            let cand = if q.prepend {
                let mut s = q.shown_prefix.clone();
                s.append("/");
                s.append(e.name.as_str());
                proof {
                    reveal_strlit("/");
                    assert(s@ =~= q.shown_prefix@ + seq!['/'] + e.name@);
                }
                s
            } else {
                e.name.clone()
            };
            out.push(cand);
            proof {
                assert(crate::chars::views_of(out@) =~= prev.push(
                    spec_candidate(entries_view(entries@)[i as int].name, q.shown_prefix@, q.prepend),
                ));
            }
        }
        i = i + 1;
        proof {
            let ev = entries_view(entries@);
            assert(ev.take(i as int).drop_last() =~= ev.take(i - 1));
            assert(ev.take(i as int).last() == ev[i - 1]);
        }
    }
    proof {
        assert(entries_view(entries@).take(n as int) =~= entries_view(entries@));
    }
    crate::chars::sort_strings(out)
}

/// The first catalog index bearing this name.
pub open spec fn spec_find_builtin_index(s: Seq<BrBuiltin>, name: Seq<char>) -> Option<int>
    decreases s.len(),
{
    if s.len() == 0 {
        None
    } else if s[0].name@ == name {
        Some(0)
    } else {
        match spec_find_builtin_index(s.skip(1), name) {
            Some(j) => Some(j + 1),
            None => None,
        }
    }
}

pub proof fn lemma_find_builtin_index(s: Seq<BrBuiltin>, name: Seq<char>)
    ensures
        match spec_find_builtin_index(s, name) {
            Some(j) => 0 <= j < s.len() && s[j].name@ == name && (forall|k: int|
                0 <= k < j ==> s[k].name@ != name),
            None => forall|k: int| 0 <= k < s.len() ==> s[k].name@ != name,
        },
    decreases s.len(),
{
    if s.len() > 0 && s[0].name@ != name {
        lemma_find_builtin_index(s.skip(1), name);
        assert(forall|k: int| 1 <= k < s.len() ==> s[k] == s.skip(1)[k - 1]);
    }
}

} // verus!
