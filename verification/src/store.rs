//! The configuration store: which directory the definitions are taken from,
//! and how its files become the loaded set and the warnings.

use vstd::prelude::*;

use crate::action::{Action, Event};
use crate::daemons::{load_config, load_outcome, ConfigView, DaemonConfig};
use crate::errors::{lift, Error, ErrorView};
use crate::order::{
    before, comes_before, lemma_duplicate_at, lemma_insert_sorted, lemma_sorted_by_command,
    lemma_sorted_distinct, same_daemon, same_identity, sorted,
};
use crate::text::{lex_less, owned};

verus! {

/// A directory where definitions may lie, and whether it was found to exist.
#[derive(Debug)]
pub struct Candidate {
    pub path: String,
    pub exists: bool,
}

pub ghost struct CandidateView {
    pub path: Seq<char>,
    pub exists: bool,
}

impl DeepView for Candidate {
    type V = CandidateView;

    open spec fn deep_view(&self) -> CandidateView {
        CandidateView { path: self.path@, exists: self.exists }
    }
}

/// Candidate `i` exists and none before it does.
pub open spec fn first_existing(candidates: Seq<CandidateView>, i: int) -> bool {
    &&& 0 <= i < candidates.len()
    &&& candidates[i].exists
    &&& forall|j: int| 0 <= j < i ==> !candidates[j].exists
}

/// The directories that are looked into for definitions, in this order.
pub fn candidate_paths() -> (r: Vec<String>)
    ensures
        r.deep_view() == seq!["/etc/runbun.d/"@, "/usr/local/etc/runbun.d/"@],
{
    let mut r: Vec<String> = Vec::new();
    r.push(owned("/etc/runbun.d/"));
    r.push(owned("/usr/local/etc/runbun.d/"));
    assert(r.deep_view() =~= seq!["/etc/runbun.d/"@, "/usr/local/etc/runbun.d/"@]);
    r
}

/// Picks the configuration directory: the first candidate that exists, and
/// that one alone. That none exists is the one failure that ends a start-up.
pub fn resolve_directory(candidates: &Vec<Candidate>) -> (r: Result<usize, Error>)
    ensures
        match r {
            Ok(i) => first_existing(candidates.deep_view(), i as int),
            Err(error) => {
                &&& error@ == ErrorView::Io("No daemon config directory found"@)
                &&& forall|j: int| 0 <= j < candidates.len() ==> !(#[trigger] candidates.deep_view()[j]).exists
            },
        },
{
    let mut i: usize = 0;
    while i < candidates.len()
        invariant
            i <= candidates.len(),
            forall|j: int| 0 <= j < i ==> !(#[trigger] candidates.deep_view()[j]).exists,
        decreases candidates.len() - i,
    {
        if candidates[i].exists {
            assert(candidates.deep_view()[i as int].exists);
            return Ok(i);
        }
        i += 1;
    }
    Err(Error::Io(owned("No daemon config directory found")))
}

/// One file of the configuration directory, as it was found.
#[derive(Debug)]
pub struct ConfigFile {
    pub path: String,
    /// The text of the file, or the system's message where it could not be
    /// read.
    pub contents: Result<String, String>,
}

pub ghost struct FileView {
    pub path: Seq<char>,
    pub contents: Result<Seq<char>, Seq<char>>,
}

impl View for ConfigFile {
    type V = FileView;

    open spec fn view(&self) -> FileView {
        FileView {
            path: self.path@,
            contents: match self.contents {
                Ok(text) => Ok(text@),
                Err(message) => Err(message@),
            },
        }
    }
}

impl DeepView for ConfigFile {
    type V = FileView;

    open spec fn deep_view(&self) -> FileView {
        self@
    }
}

/// What a file gives by itself: its definition, or why it has none.
pub open spec fn file_outcome(file: FileView) -> Result<ConfigView, ErrorView> {
    match file.contents {
        Err(message) => Err(ErrorView::Io(message)),
        Ok(text) => load_outcome(text),
    }
}

/// File `i` holds a definition that duplicates the one of an earlier file.
pub open spec fn repeats(files: Seq<FileView>, i: int) -> bool {
    exists|j: int|
        0 <= j < i && #[trigger] file_outcome(files[j]) is Ok && same_daemon(
            file_outcome(files[j])->Ok_0,
            file_outcome(files[i])->Ok_0,
        )
}

/// What becomes of file `i` among the others: its definition is accepted, or
/// the file is rejected for the error given. Of duplicates the first loaded
/// wins.
pub open spec fn verdict(files: Seq<FileView>, i: int) -> Result<ConfigView, ErrorView> {
    match file_outcome(files[i]) {
        Err(error) => Err(error),
        Ok(config) => if repeats(files, i) {
            Err(ErrorView::DuplicateDaemon(config.command))
        } else {
            Ok(config)
        },
    }
}

/// The warning for a file that was rejected.
pub open spec fn warning(error: ErrorView, path: Seq<char>) -> Event {
    Event::ConfigWarning { detail: error.describe() + " parsing "@ + path }
}

/// The warnings for the rejected ones among the first `n` files, in the
/// order of the files.
pub open spec fn warnings_of(files: Seq<FileView>, n: int) -> Seq<Event>
    decreases n,
{
    if n <= 0 {
        Seq::empty()
    } else {
        match verdict(files, n - 1) {
            Err(error) => warnings_of(files, n - 1).push(warning(error, files[n - 1].path)),
            Ok(_) => warnings_of(files, n - 1),
        }
    }
}

/// The definitions in `configs` are those accepted among the first `n` files.
pub open spec fn holds_accepted(configs: Seq<ConfigView>, files: Seq<FileView>, n: int) -> bool {
    &&& forall|i: int|
        0 <= i < n && #[trigger] verdict(files, i) is Ok ==> configs.contains(verdict(files, i)->Ok_0)
    &&& forall|k: int|
        0 <= k < configs.len() ==> exists|i: int|
            0 <= i < n && verdict(files, i) == Ok::<ConfigView, ErrorView>(#[trigger] configs[k])
}

/// `configs` holds `c` or a duplicate of it.
#[verifier::opaque]
spec fn has_duplicate(configs: Seq<ConfigView>, c: ConfigView) -> bool {
    exists|k: int| 0 <= k < configs.len() && same_daemon(configs[k], c)
}

/// Every definition among the first `n` files has a duplicate of it, or
/// itself, in `configs`.
spec fn covers(configs: Seq<ConfigView>, files: Seq<FileView>, n: int) -> bool {
    forall|j: int|
        0 <= j < n && #[trigger] file_outcome(files[j]) is Ok ==> has_duplicate(
            configs,
            file_outcome(files[j])->Ok_0,
        )
}

proof fn lemma_duplicate_of_same(configs: Seq<ConfigView>, a: ConfigView, b: ConfigView)
    requires
        has_duplicate(configs, a),
        same_daemon(a, b),
    ensures
        has_duplicate(configs, b),
{
    reveal(has_duplicate);
    let k = choose|k: int| 0 <= k < configs.len() && same_daemon(configs[k], a);
    assert(same_daemon(configs[k], b));
}

proof fn lemma_duplicate_insert(configs: Seq<ConfigView>, p: int, c: ConfigView, a: ConfigView)
    requires
        0 <= p <= configs.len(),
        has_duplicate(configs, a) || same_daemon(c, a),
    ensures
        has_duplicate(configs.insert(p, c), a),
{
    reveal(has_duplicate);
    let t = configs.insert(p, c);
    if same_daemon(c, a) {
        assert(same_daemon(t[p], a));
    } else {
        let k = choose|k: int| 0 <= k < configs.len() && same_daemon(configs[k], a);
        if k < p {
            assert(same_daemon(t[k], a));
        } else {
            assert(same_daemon(t[k + 1], a));
        }
    }
}

fn warn(error: &Error, path: &str) -> (r: Action)
    ensures
        r@ == warning(error@, path@),
{
    Action::ConfigWarning { detail: error.describe().concat(" parsing ").concat(path) }
}

fn read_file(file: &ConfigFile) -> (r: Result<DaemonConfig, Error>)
    ensures
        lift(r) == file_outcome(file@),
        r matches Ok(config) ==> config@.wf(),
{
    match &file.contents {
        Err(message) => Err(Error::Io(message.clone())),
        Ok(text) => load_config(text.as_str()),
    }
}

/// The first place in a sorted list whose definition is not before `config`.
fn place(configs: &Vec<DaemonConfig>, config: &DaemonConfig) -> (p: usize)
    ensures
        p <= configs.len(),
        forall|k: int| 0 <= k < p ==> before(#[trigger] configs.deep_view()[k], config@),
        p < configs.len() ==> !before(configs.deep_view()[p as int], config@),
{
    let mut p: usize = 0;
    while p < configs.len() && comes_before(&configs[p], config)
        invariant
            p <= configs.len(),
            forall|k: int| 0 <= k < p ==> before(#[trigger] configs.deep_view()[k], config@),
        decreases configs.len() - p,
    {
        p += 1;
    }
    p
}

/// What holds of the loaded set and the warnings once the first `n` files
/// are dealt with.
spec fn loaded(configs: Seq<ConfigView>, warnings: Seq<Event>, files: Seq<FileView>, n: int) -> bool {
    &&& sorted(configs)
    &&& holds_accepted(configs, files, n)
    &&& covers(configs, files, n)
    &&& warnings == warnings_of(files, n)
    &&& configs.len() + warnings.len() == n
    &&& forall|k: int| 0 <= k < configs.len() ==> (#[trigger] configs[k]).wf()
}

/// With every definition so far covered by `configs`, file `n` repeats an
/// earlier one exactly if the first definition not before its own is a
/// duplicate of it.
proof fn lemma_repeats(configs: Seq<ConfigView>, files: Seq<FileView>, n: int, p: int)
    requires
        0 <= n < files.len(),
        file_outcome(files[n]) is Ok,
        sorted(configs),
        covers(configs, files, n),
        holds_accepted(configs, files, n),
        0 <= p <= configs.len(),
        forall|k: int| 0 <= k < p ==> before(#[trigger] configs[k], file_outcome(files[n])->Ok_0),
        p < configs.len() ==> !before(configs[p], file_outcome(files[n])->Ok_0),
    ensures
        repeats(files, n) <==> (p < configs.len() && same_daemon(configs[p], file_outcome(files[n])->Ok_0)),
{
    let c = file_outcome(files[n])->Ok_0;
    lemma_duplicate_at(configs, c, p);
    if repeats(files, n) {
        let j = choose|j: int|
            0 <= j < n && #[trigger] file_outcome(files[j]) is Ok && same_daemon(
                file_outcome(files[j])->Ok_0,
                file_outcome(files[n])->Ok_0,
            );
        lemma_duplicate_of_same(configs, file_outcome(files[j])->Ok_0, c);
        reveal(has_duplicate);
    }
    if p < configs.len() && same_daemon(configs[p], c) {
        let j = choose|j: int| 0 <= j < n && verdict(files, j) == Ok::<ConfigView, ErrorView>(configs[p]);
        assert(file_outcome(files[j]) is Ok);
    }
}

/// Rejecting file `n` adds its warning and leaves the loaded set as it is.
proof fn lemma_reject(configs: Seq<ConfigView>, warnings: Seq<Event>, files: Seq<FileView>, n: int)
    requires
        0 <= n < files.len(),
        loaded(configs, warnings, files, n),
        verdict(files, n) is Err,
    ensures
        loaded(configs, warnings.push(warning(verdict(files, n)->Err_0, files[n].path)), files, n + 1),
{
    assert forall|k: int| 0 <= k < configs.len() implies exists|i: int|
        0 <= i < n + 1 && verdict(files, i) == Ok::<ConfigView, ErrorView>(#[trigger] configs[k]) by {
        let i = choose|i: int| 0 <= i < n && verdict(files, i) == Ok::<ConfigView, ErrorView>(configs[k]);
        assert(0 <= i < n + 1 && verdict(files, i) == Ok::<ConfigView, ErrorView>(configs[k]));
    }
    assert forall|j: int| 0 <= j < n + 1 && #[trigger] file_outcome(files[j]) is Ok implies has_duplicate(
        configs,
        file_outcome(files[j])->Ok_0,
    ) by {
        if j == n {
            assert(repeats(files, n));
            let i = choose|i: int|
                0 <= i < n && #[trigger] file_outcome(files[i]) is Ok && same_daemon(
                    file_outcome(files[i])->Ok_0,
                    file_outcome(files[n])->Ok_0,
                );
            lemma_duplicate_of_same(configs, file_outcome(files[i])->Ok_0, file_outcome(files[n])->Ok_0);
        }
    }
}

/// A definition that the list holds is still there once another is put in.
proof fn lemma_insert_contains(configs: Seq<ConfigView>, p: int, c: ConfigView, d: ConfigView)
    requires
        0 <= p <= configs.len(),
        configs.contains(d) || d == c,
    ensures
        configs.insert(p, c).contains(d),
{
    let t = configs.insert(p, c);
    if d == c {
        assert(t[p] == d);
    } else {
        let k = choose|k: int| 0 <= k < configs.len() && configs[k] == d;
        if k < p {
            assert(t[k] == d);
        } else {
            assert(t[k + 1] == d);
        }
    }
}

/// Accepting file `n` keeps the list the accepted definitions, now of the
/// first `n + 1` files.
proof fn lemma_insert_holds(configs: Seq<ConfigView>, files: Seq<FileView>, n: int, p: int)
    requires
        0 <= n < files.len(),
        0 <= p <= configs.len(),
        verdict(files, n) is Ok,
        holds_accepted(configs, files, n),
    ensures
        holds_accepted(configs.insert(p, verdict(files, n)->Ok_0), files, n + 1),
{
    let c = verdict(files, n)->Ok_0;
    let t = configs.insert(p, c);
    assert forall|i: int| 0 <= i < n + 1 && #[trigger] verdict(files, i) is Ok implies t.contains(
        verdict(files, i)->Ok_0,
    ) by {
        lemma_insert_contains(configs, p, c, verdict(files, i)->Ok_0);
    }
    assert forall|k: int| 0 <= k < t.len() implies exists|i: int|
        0 <= i < n + 1 && verdict(files, i) == Ok::<ConfigView, ErrorView>(#[trigger] t[k]) by {
        if k < p {
            assert(t[k] == configs[k]);
            let i = choose|i: int| 0 <= i < n && verdict(files, i) == Ok::<ConfigView, ErrorView>(configs[k]);
            assert(0 <= i < n + 1 && verdict(files, i) == Ok::<ConfigView, ErrorView>(t[k]));
        } else if k == p {
            assert(0 <= n < n + 1 && verdict(files, n) == Ok::<ConfigView, ErrorView>(t[k]));
        } else {
            assert(t[k] == configs[k - 1]);
            let i = choose|i: int| 0 <= i < n && verdict(files, i) == Ok::<ConfigView, ErrorView>(configs[k - 1]);
            assert(0 <= i < n + 1 && verdict(files, i) == Ok::<ConfigView, ErrorView>(t[k]));
        }
    }
}

/// Accepting file `n` keeps every definition so far covered.
proof fn lemma_insert_covers(configs: Seq<ConfigView>, files: Seq<FileView>, n: int, p: int)
    requires
        0 <= n < files.len(),
        0 <= p <= configs.len(),
        file_outcome(files[n]) is Ok,
        covers(configs, files, n),
    ensures
        covers(configs.insert(p, file_outcome(files[n])->Ok_0), files, n + 1),
{
    let c = file_outcome(files[n])->Ok_0;
    let t = configs.insert(p, c);
    assert forall|j: int| 0 <= j < n + 1 && #[trigger] file_outcome(files[j]) is Ok implies has_duplicate(
        t,
        file_outcome(files[j])->Ok_0,
    ) by {
        lemma_duplicate_insert(configs, p, c, file_outcome(files[j])->Ok_0);
    }
}

/// Putting a well-formed definition into a list of such keeps it one.
proof fn lemma_insert_wf(configs: Seq<ConfigView>, p: int, c: ConfigView)
    requires
        0 <= p <= configs.len(),
        c.wf(),
        forall|k: int| 0 <= k < configs.len() ==> (#[trigger] configs[k]).wf(),
    ensures
        forall|k: int| 0 <= k < configs.len() + 1 ==> (#[trigger] configs.insert(p, c)[k]).wf(),
{
    let t = configs.insert(p, c);
    assert forall|k: int| 0 <= k < configs.len() + 1 implies (#[trigger] t[k]).wf() by {
        if k < p {
            assert(t[k] == configs[k]);
        } else if k > p {
            assert(t[k] == configs[k - 1]);
        }
    }
}

/// Accepting file `n` puts its definition at the first place whose
/// definition is not before it.
proof fn lemma_accept(configs: Seq<ConfigView>, warnings: Seq<Event>, files: Seq<FileView>, n: int, p: int)
    requires
        0 <= n < files.len(),
        loaded(configs, warnings, files, n),
        verdict(files, n) is Ok,
        verdict(files, n)->Ok_0.wf(),
        0 <= p <= configs.len(),
        forall|k: int| 0 <= k < p ==> before(#[trigger] configs[k], verdict(files, n)->Ok_0),
        p < configs.len() ==> !before(configs[p], verdict(files, n)->Ok_0),
    ensures
        loaded(configs.insert(p, verdict(files, n)->Ok_0), warnings, files, n + 1),
{
    let c = verdict(files, n)->Ok_0;
    assert(file_outcome(files[n]) == Ok::<ConfigView, ErrorView>(c));
    lemma_repeats(configs, files, n, p);
    lemma_insert_sorted(configs, c, p);
    lemma_insert_holds(configs, files, n, p);
    lemma_insert_covers(configs, files, n, p);
    lemma_insert_wf(configs, p, c);
}

/// Deals with one file: its definition joins the loaded set, or its warning
/// the warnings.
fn absorb(
    configs: &mut Vec<DaemonConfig>,
    warnings: &mut Vec<Action>,
    file: &ConfigFile,
    Ghost(files): Ghost<Seq<FileView>>,
    Ghost(n): Ghost<int>,
)
    requires
        0 <= n < files.len(),
        files[n] == file@,
        loaded(old(configs).deep_view(), old(warnings).deep_view(), files, n),
    ensures
        loaded(final(configs).deep_view(), final(warnings).deep_view(), files, n + 1),
{
    let ghost old_configs = configs.deep_view();
    let ghost old_warnings = warnings.deep_view();
    match read_file(file) {
        Err(error) => {
            warnings.push(warn(&error, file.path.as_str()));
            proof {
                assert(verdict(files, n) == Err::<ConfigView, ErrorView>(error@));
                lemma_reject(old_configs, old_warnings, files, n);
                assert(warnings.deep_view() =~= old_warnings.push(warning(error@, file@.path)));
            }
        },
        Ok(config) => {
            let p = place(configs, &config);
            let duplicate = p < configs.len() && same_identity(&configs[p], &config);
            proof {
                lemma_repeats(old_configs, files, n, p as int);
            }
            if duplicate {
                let error = Error::DuplicateDaemon(config.command.clone());
                warnings.push(warn(&error, file.path.as_str()));
                proof {
                    assert(verdict(files, n) == Err::<ConfigView, ErrorView>(error@));
                    lemma_reject(old_configs, old_warnings, files, n);
                    assert(warnings.deep_view() =~= old_warnings.push(warning(error@, file@.path)));
                }
            } else {
                let ghost c = config@;
                configs.insert(p, config);
                proof {
                    assert(verdict(files, n) == Ok::<ConfigView, ErrorView>(c));
                    lemma_accept(old_configs, old_warnings, files, n, p as int);
                    assert(configs.deep_view() =~= old_configs.insert(p as int, c));
                }
            }
        },
    }
}

/// Loads the definitions of a configuration directory from its files, given
/// in the order in which they were found.
///
/// Each file is read by itself. One that is unreadable, is not TOML, fails
/// validation or repeats the command and run group of an earlier definition
/// is left out, with one warning that names it. The others make the loaded
/// set, listed by command and, within one command, by run group.
pub fn load_all(files: Vec<ConfigFile>) -> (r: (Vec<DaemonConfig>, Vec<Action>))
    ensures
        sorted(r.0.deep_view()),
        holds_accepted(r.0.deep_view(), files.deep_view(), files.len() as int),
        r.1.deep_view() == warnings_of(files.deep_view(), files.len() as int),
        r.0.len() + r.1.len() == files.len(),
        forall|k: int| 0 <= k < r.0.len() ==> (#[trigger] r.0.deep_view()[k]).wf(),
        forall|i: int, j: int|
            0 <= i < r.0.len() && 0 <= j < r.0.len() && i != j ==> !same_daemon(
                r.0.deep_view()[i],
                r.0.deep_view()[j],
            ),
        forall|i: int, j: int|
            0 <= i < j < r.0.len() ==> !lex_less(r.0.deep_view()[j].command, r.0.deep_view()[i].command),
{
    let mut configs: Vec<DaemonConfig> = Vec::new();
    let mut warnings: Vec<Action> = Vec::new();
    let mut i: usize = 0;
    assert(warnings.deep_view() =~= Seq::empty());
    assert(configs.deep_view() =~= Seq::empty());
    while i < files.len()
        invariant
            i <= files.len(),
            loaded(configs.deep_view(), warnings.deep_view(), files.deep_view(), i as int),
        decreases files.len() - i,
    {
        absorb(&mut configs, &mut warnings, &files[i], Ghost(files.deep_view()), Ghost(i as int));
        i += 1;
    }
    proof {
        lemma_sorted_distinct(configs.deep_view());
        lemma_sorted_by_command(configs.deep_view());
    }
    (configs, warnings)
}

} // verus!
