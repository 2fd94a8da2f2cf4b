//! Daemon definitions: what a definition holds, how one is validated, and
//! how the definitions of a configuration directory become the loaded set.

use vstd::prelude::*;

pub use crate::store::load_all;
pub use crate::supervisor::Daemon;

use crate::document::{parse_document, raw_of, read_raw, toml_parsed, Field, RawConfig, RawView};
use crate::errors::{lift, Error, ErrorView};
use crate::text::{chars_of, owned, same_text};

verus! {

/// Whether a daemon is run once or kept alive.
#[derive(Debug, Copy, Clone, PartialEq, Eq, Structural)]
pub enum DaemonKind {
    Oneshot,
    Daemon,
}

impl DeepView for DaemonKind {
    type V = DaemonKind;

    open spec fn deep_view(&self) -> DaemonKind {
        *self
    }
}

impl DaemonKind {
    /// The kind that a definition names with `text`.
    pub open spec fn parse(text: Seq<char>) -> Result<DaemonKind, ErrorView> {
        if text == "oneshot"@ {
            Ok(DaemonKind::Oneshot)
        } else if text == "daemon"@ {
            Ok(DaemonKind::Daemon)
        } else {
            Err(ErrorView::InvalidDaemonKind(text))
        }
    }

    /// Reads a kind: `oneshot` or `daemon`, and nothing else.
    pub fn from_str(s: &str) -> (r: Result<DaemonKind, Error>)
        ensures
            lift(r) == DaemonKind::parse(s@),
    {
        if same_text(s, "oneshot") {
            Ok(DaemonKind::Oneshot)
        } else if same_text(s, "daemon") {
            Ok(DaemonKind::Daemon)
        } else {
            Err(Error::InvalidDaemonKind(owned(s)))
        }
    }
}

impl core::str::FromStr for DaemonKind {
    type Err = Error;

    fn from_str(s: &str) -> (r: Result<DaemonKind, Error>)
        ensures
            lift(r) == DaemonKind::parse(s@),
    {
        DaemonKind::from_str(s)
    }
}

/// One environment variable that a daemon's child is started with.
#[derive(Debug, PartialEq, Eq)]
pub struct Envar {
    name: String,
    value: String,
}

pub ghost struct EnvarView {
    pub name: Seq<char>,
    pub value: Seq<char>,
}

impl View for Envar {
    type V = EnvarView;

    closed spec fn view(&self) -> EnvarView {
        EnvarView { name: self.name@, value: self.value@ }
    }
}

impl DeepView for Envar {
    type V = EnvarView;

    open spec fn deep_view(&self) -> EnvarView {
        self@
    }
}

impl Clone for Envar {
    fn clone(&self) -> (r: Envar)
        ensures
            r@ == self@,
    {
        Envar { name: self.name.clone(), value: self.value.clone() }
    }
}

/// `p` is the place of the only `=` in `s`.
pub open spec fn sole_equals(s: Seq<char>, p: int) -> bool {
    &&& 0 <= p < s.len()
    &&& s[p] == '='
    &&& forall|j: int| 0 <= j < s.len() && j != p ==> s[j] != '='
}

/// The variable that the entry `s` sets: `s` holds exactly one `=`, the name
/// stands before it and the value behind it. Either may be empty.
pub open spec fn envar_of(s: Seq<char>) -> Option<EnvarView> {
    if exists|p: int| sole_equals(s, p) {
        let p = choose|p: int| sole_equals(s, p);
        Some(EnvarView { name: s.subrange(0, p), value: s.subrange(p + 1, s.len() as int) })
    } else {
        None
    }
}

impl Envar {
    pub fn name(&self) -> (r: &str)
        ensures
            r@ == self@.name,
    {
        self.name.as_str()
    }

    pub fn value(&self) -> (r: &str)
        ensures
            r@ == self@.value,
    {
        self.value.as_str()
    }

    /// The pair of name and value, as a child's environment takes it.
    pub fn compile(self) -> (r: (String, String))
        ensures
            r.0@ == self@.name,
            r.1@ == self@.value,
    {
        (self.name, self.value)
    }

    /// Reads an entry of the shape `name=value`. An entry without `=`, or
    /// with more than one, is refused and handed back in the error.
    pub fn from_str(s: &str) -> (r: Result<Envar, Error>)
        ensures
            lift(r) == match envar_of(s@) {
                Some(var) => Ok::<EnvarView, ErrorView>(var),
                None => Err(ErrorView::InvalidEnvar(s@)),
            },
    {
        let chars = chars_of(s);
        let n = chars.len();
        let mut p: usize = 0;
        while p < n && chars[p] != '='
            invariant
                chars@ == s@,
                n == chars.len(),
                p <= n,
                forall|j: int| 0 <= j < p ==> s@[j] != '=',
            decreases n - p,
        {
            p += 1;
        }
        if p == n {
            return Err(Error::InvalidEnvar(owned(s)));
        }
        let mut q: usize = p + 1;
        while q < n && chars[q] != '='
            invariant
                chars@ == s@,
                n == chars.len(),
                p < q <= n,
                forall|j: int| p < j < q ==> s@[j] != '=',
            decreases n - q,
        {
            q += 1;
        }
        if q < n {
            proof {
                assert forall|k: int| !sole_equals(s@, k) by {
                    if k == p {
                        assert(s@[q as int] == '=');
                    } else {
                        assert(s@[p as int] == '=');
                    }
                }
            }
            return Err(Error::InvalidEnvar(owned(s)));
        }
        proof {
            assert(sole_equals(s@, p as int));
            let c = choose|c: int| sole_equals(s@, c);
            assert(c == p);
        }
        let name = owned(s.substring_char(0, p));
        let value = owned(s.substring_char(p + 1, n));
        Ok(Envar { name, value })
    }
}

impl core::str::FromStr for Envar {
    type Err = Error;

    fn from_str(s: &str) -> (r: Result<Envar, Error>)
        ensures
            lift(r) == match envar_of(s@) {
                Some(var) => Ok::<EnvarView, ErrorView>(var),
                None => Err(ErrorView::InvalidEnvar(s@)),
            },
    {
        Envar::from_str(s)
    }
}

/// A validated description of one process to supervise.
#[derive(Debug)]
pub struct DaemonConfig {
    /// Free text; names the daemon in events and requests.
    pub desc: String,
    /// The path of the executable.
    pub command: String,
    pub args: Vec<String>,
    /// Overrides laid over the inherited environment. No name occurs twice.
    pub env: Vec<Envar>,
    /// The user id to run as, where it is not the supervisor's own.
    pub user: Option<u64>,
    pub run_group: u8,
    pub kind: DaemonKind,
}

pub ghost struct ConfigView {
    pub desc: Seq<char>,
    pub command: Seq<char>,
    pub args: Seq<Seq<char>>,
    pub env: Seq<EnvarView>,
    pub user: Option<u64>,
    pub run_group: u8,
    pub kind: DaemonKind,
}

impl View for DaemonConfig {
    type V = ConfigView;

    open spec fn view(&self) -> ConfigView {
        ConfigView {
            desc: self.desc@,
            command: self.command@,
            args: self.args.deep_view(),
            env: self.env.deep_view(),
            user: self.user,
            run_group: self.run_group,
            kind: self.kind,
        }
    }
}

impl DeepView for DaemonConfig {
    type V = ConfigView;

    open spec fn deep_view(&self) -> ConfigView {
        self@
    }
}

impl Clone for DaemonConfig {
    fn clone(&self) -> (r: DaemonConfig)
        ensures
            r@ == self@,
    {
        let args = self.args.clone();
        let env = self.env.clone();
        proof {
            assert(args.deep_view() =~= self.args.deep_view());
            assert(env.deep_view() =~= self.env.deep_view());
        }
        DaemonConfig {
            desc: self.desc.clone(),
            command: self.command.clone(),
            args,
            env,
            user: self.user,
            run_group: self.run_group,
            kind: self.kind,
        }
    }
}

/// No two of the variables have the same name.
pub open spec fn distinct_names(env: Seq<EnvarView>) -> bool {
    forall|i: int, j: int| 0 <= i < j < env.len() ==> env[i].name != env[j].name
}

/// Some variable of `env` is called `name`.
pub open spec fn names(env: Seq<EnvarView>, name: Seq<char>) -> bool {
    exists|i: int| 0 <= i < env.len() && env[i].name == name
}

impl ConfigView {
    /// What every loaded definition satisfies.
    pub open spec fn wf(self) -> bool {
        distinct_names(self.env)
    }
}

/// A field that a definition must have.
pub open spec fn required<T>(field: Field<T>, name: Seq<char>) -> Result<T, ErrorView> {
    match field {
        Field::Missing => Err(ErrorView::MissingField(name)),
        Field::Mistyped => Err(ErrorView::InvalidField(name)),
        Field::Given(value) => Ok(value),
    }
}

/// The variables that the entries set, in their order; the first entry that
/// is malformed, or that names a variable again, decides the error.
pub open spec fn decode_env(entries: Seq<Seq<char>>) -> Result<Seq<EnvarView>, ErrorView>
    decreases entries.len(),
{
    if entries.len() == 0 {
        Ok(Seq::empty())
    } else {
        match decode_env(entries.drop_last()) {
            Err(error) => Err(error),
            Ok(env) => match envar_of(entries.last()) {
                None => Err(ErrorView::InvalidEnvar(entries.last())),
                Some(var) => if names(env, var.name) {
                    Err(ErrorView::DuplicateEnvar(var.name))
                } else {
                    Ok(env.push(var))
                },
            },
        }
    }
}

/// The user id: optional, but where given a number that is not negative.
pub open spec fn decode_user(field: Field<i64>) -> Result<Option<u64>, ErrorView> {
    match field {
        Field::Missing => Ok(None),
        Field::Mistyped => Err(ErrorView::InvalidField("user"@)),
        Field::Given(number) => if number >= 0 {
            Ok(Some(number as u64))
        } else {
            Err(ErrorView::InvalidField("user"@))
        },
    }
}

/// The run group: a number from 0 to 255.
pub open spec fn decode_run_group(field: Field<i64>) -> Result<u8, ErrorView> {
    match field {
        Field::Missing => Err(ErrorView::MissingField("run_group"@)),
        Field::Mistyped => Err(ErrorView::InvalidField("run_group"@)),
        Field::Given(number) => if 0 <= number <= 255 {
            Ok(number as u8)
        } else {
            Err(ErrorView::InvalidField("run_group"@))
        },
    }
}

/// The kind: one of the two words.
pub open spec fn decode_kind(field: Field<Seq<char>>) -> Result<DaemonKind, ErrorView> {
    match required(field, "kind"@) {
        Err(error) => Err(error),
        Ok(text) => DaemonKind::parse(text),
    }
}

/// The definition that the fields make. A key that is no field is refused
/// before anything else. Then the fields are checked in the order `desc`,
/// `command`, `args`, `env`, `user`, `run_group`, `kind`, and the first that
/// fails decides the error.
pub open spec fn decode(raw: RawView) -> Result<ConfigView, ErrorView> {
    let desc = required(raw.desc, "desc"@);
    let command = required(raw.command, "command"@);
    let args = required(raw.args, "args"@);
    let entries = required(raw.env, "env"@);
    let user = decode_user(raw.user);
    let run_group = decode_run_group(raw.run_group);
    let kind = decode_kind(raw.kind);
    if raw.unknown is Some {
        Err(ErrorView::UnknownField(raw.unknown->0))
    } else if desc is Err {
        Err(desc->Err_0)
    } else if command is Err {
        Err(command->Err_0)
    } else if args is Err {
        Err(args->Err_0)
    } else if entries is Err {
        Err(entries->Err_0)
    } else if decode_env(entries->Ok_0) is Err {
        Err(decode_env(entries->Ok_0)->Err_0)
    } else if user is Err {
        Err(user->Err_0)
    } else if run_group is Err {
        Err(run_group->Err_0)
    } else if kind is Err {
        Err(kind->Err_0)
    } else {
        Ok(
            ConfigView {
                desc: desc->Ok_0,
                command: command->Ok_0,
                args: args->Ok_0,
                env: decode_env(entries->Ok_0)->Ok_0,
                user: user->Ok_0,
                run_group: run_group->Ok_0,
                kind: kind->Ok_0,
            },
        )
    }
}

/// What loading the document `text` gives: the parser's complaint where it is
/// not TOML, else what its fields decode to.
pub open spec fn load_outcome(text: Seq<char>) -> Result<ConfigView, ErrorView> {
    match toml_parsed(text) {
        Err(message) => Err(ErrorView::Toml(message)),
        Ok(document) => decode(raw_of(document)),
    }
}

fn require<T: DeepView>(field: Field<T>, name: &str) -> (r: Result<T, Error>)
    ensures
        lift(r) == required(field.deep_view(), name@),
{
    match field {
        Field::Missing => Err(Error::MissingField(owned(name))),
        Field::Mistyped => Err(Error::InvalidField(owned(name))),
        Field::Given(value) => Ok(value),
    }
}

fn has_name(env: &Vec<Envar>, name: &str) -> (r: bool)
    ensures
        r == names(env.deep_view(), name@),
{
    let mut i: usize = 0;
    while i < env.len()
        invariant
            i <= env.len(),
            forall|k: int| 0 <= k < i ==> env.deep_view()[k].name != name@,
        decreases env.len() - i,
    {
        if same_text(env[i].name(), name) {
            assert(env.deep_view()[i as int].name == name@);
            return true;
        }
        i += 1;
    }
    false
}

fn compile_env(entries: &Vec<String>) -> (r: Result<Vec<Envar>, Error>)
    ensures
        lift(r) == decode_env(entries.deep_view()),
        r matches Ok(env) ==> distinct_names(env.deep_view()),
{
    let ghost all = entries.deep_view();
    let mut env: Vec<Envar> = Vec::new();
    let mut i: usize = 0;
    assert(all.take(0) =~= Seq::empty());
    assert(env.deep_view() =~= Seq::empty());
    while i < entries.len()
        invariant
            i <= entries.len(),
            all == entries.deep_view(),
            decode_env(all.take(i as int)) == Ok::<Seq<EnvarView>, ErrorView>(env.deep_view()),
            distinct_names(env.deep_view()),
        decreases entries.len() - i,
    {
        proof {
            assert(all.take(i + 1).drop_last() =~= all.take(i as int));
            assert(all.take(i + 1).last() == entries[i as int]@);
        }
        let var = match Envar::from_str(entries[i].as_str()) {
            Err(error) => {
                proof {
                    lemma_decode_env_fails(all, i + 1);
                }
                return Err(error);
            },
            Ok(var) => var,
        };
        if has_name(&env, var.name()) {
            proof {
                lemma_decode_env_fails(all, i + 1);
            }
            return Err(Error::DuplicateEnvar(owned(var.name())));
        }
        let ghost before = env.deep_view();
        env.push(var);
        assert(env.deep_view() =~= before.push(var@));
        i += 1;
    }
    assert(all.take(i as int) =~= all);
    Ok(env)
}

/// Once a prefix of the entries fails, the whole list fails the same way.
proof fn lemma_decode_env_fails(entries: Seq<Seq<char>>, n: int)
    requires
        0 <= n <= entries.len(),
        decode_env(entries.take(n)) is Err,
    ensures
        decode_env(entries) == decode_env(entries.take(n)),
    decreases entries.len() - n,
{
    if n == entries.len() {
        assert(entries.take(n) =~= entries);
    } else {
        assert(entries.take(n + 1).drop_last() =~= entries.take(n));
        lemma_decode_env_fails(entries, n + 1);
    }
}

impl DaemonConfig {
    /// Validates the fields of a definition.
    pub fn from_raw(raw: RawConfig) -> (r: Result<DaemonConfig, Error>)
        ensures
            lift(r) == decode(raw.deep_view()),
            r matches Ok(config) ==> config@.wf(),
    {
        if let Some(key) = raw.unknown {
            return Err(Error::UnknownField(key));
        }
        let desc = require(raw.desc, "desc")?;
        let command = require(raw.command, "command")?;
        let args = require(raw.args, "args")?;
        let entries = require(raw.env, "env")?;
        let env = compile_env(&entries)?;
        let user = match raw.user {
            Field::Missing => None,
            Field::Mistyped => { return Err(Error::InvalidField(owned("user"))); },
            Field::Given(number) => {
                if number < 0 {
                    return Err(Error::InvalidField(owned("user")));
                }
                Some(number as u64)
            },
        };
        let run_group = match raw.run_group {
            Field::Missing => { return Err(Error::MissingField(owned("run_group"))); },
            Field::Mistyped => { return Err(Error::InvalidField(owned("run_group"))); },
            Field::Given(number) => {
                if number < 0 || number > 255 {
                    return Err(Error::InvalidField(owned("run_group")));
                }
                number as u8
            },
        };
        let kind = DaemonKind::from_str(require(raw.kind, "kind")?.as_str())?;
        Ok(DaemonConfig { desc, command, args, env, user, run_group, kind })
    }

    /// The overrides as pairs of name and value, as the launch of the child
    /// takes them.
    pub fn compiled_env(&self) -> (r: Vec<(String, String)>)
        ensures
            r.len() == self.env.len(),
            forall|i: int|
                0 <= i < r.len() ==> (#[trigger] r.deep_view()[i]) == (self@.env[i].name, self@.env[i].value),
    {
        let mut pairs: Vec<(String, String)> = Vec::new();
        let mut i: usize = 0;
        while i < self.env.len()
            invariant
                i <= self.env.len(),
                pairs.len() == i,
                forall|k: int|
                    0 <= k < i ==> (#[trigger] pairs.deep_view()[k]) == (self@.env[k].name, self@.env[k].value),
            decreases self.env.len() - i,
        {
            let ghost done = pairs.deep_view();
            let pair = self.env[i].clone().compile();
            assert(self@.env[i as int] == self.env[i as int]@);
            pairs.push(pair);
            assert forall|k: int| 0 <= k < i implies (#[trigger] pairs.deep_view()[k]) == done[k] by {}
            i += 1;
        }
        pairs
    }

    pub fn is_oneshot(&self) -> (r: bool)
        ensures
            r == (self.kind == DaemonKind::Oneshot),
    {
        self.kind == DaemonKind::Oneshot
    }

    pub fn is_daemon(&self) -> (r: bool)
        ensures
            r == (self.kind == DaemonKind::Daemon),
    {
        self.kind == DaemonKind::Daemon
    }
}

/// Reads one definition from the text of its file.
pub fn load_config(text: &str) -> (r: Result<DaemonConfig, Error>)
    ensures
        lift(r) == load_outcome(text@),
        r matches Ok(config) ==> config@.wf(),
{
    match parse_document(text) {
        Err(message) => Err(Error::Toml(message)),
        Ok(document) => DaemonConfig::from_raw(read_raw(&document)),
    }
}

} // verus!
