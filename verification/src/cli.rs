//! The installer's command line. Parsing never fails: unknown tokens
//! (flags, positional arguments, slash switches) are skipped, recognised
//! options take effect, and the worst case is the default interactive
//! install. Asking for help is the one outcome that is not a command.

use vstd::prelude::*;
use crate::text::{
    find_char, first_index,
    ascii_down, ascii_lower, ascii_up, ascii_upper, chars_eq, chars_of, has_prefix, occurs_at,
    push_chars, slice_chars, starts_with_chars, string_of, trim_end_char, trim_end_char_exec,
    trim_end_ws, trim_end_ws_exec, trim_start_char, trim_start_char_exec, trim_start_ws,
    trim_start_ws_exec,
};
use vstd::string::StringExecFns;

verus! {

/// Options of an install run.
#[derive(Clone, Debug, PartialEq, Eq)]
pub struct InstallArgs {
    pub target: Option<String>,
    pub non_interactive: bool,
    pub silent: bool,
    pub online: bool,
    pub uninstall: bool,
    pub source: Option<String>,
    pub dfs_extras: Option<String>,
    pub mirrorc_cdk: Option<String>,
    pub dump_dir: Option<String>,
}

/// Options of the elevated helper.
#[derive(Clone, Debug, PartialEq, Eq)]
pub struct UacArgs {
    pub pipe_id: String,
}

/// What the process is asked to do.
#[derive(Clone, Debug, PartialEq, Eq)]
pub enum Command {
    Install(InstallArgs),
    InstallWebview2,
    NativeUi(InstallArgs),
    HeadlessUac(UacArgs),
    /// The separate crash notice process started after a panic.
    CrashDialog { event_id: Option<String> },
}

/// Why parsing ends the process instead of giving a command.
#[derive(Clone, Copy, Debug, PartialEq, Eq, Structural)]
pub enum CliExit {
    /// `-h`, `--help` or `/?`: print the help text and exit successfully.
    Help,
    /// `headless-uac` without its pipe name: internal misuse, exit quietly
    /// with status 2.
    MissingPipeId,
}

/// Install options as plain values.
pub struct ArgsView {
    pub target: Option<Seq<char>>,
    pub non_interactive: bool,
    pub silent: bool,
    pub online: bool,
    pub uninstall: bool,
    pub source: Option<Seq<char>>,
    pub dfs_extras: Option<Seq<char>>,
    pub mirrorc_cdk: Option<Seq<char>>,
    pub dump_dir: Option<Seq<char>>,
}

pub open spec fn sv(o: Option<String>) -> Option<Seq<char>> {
    match o {
        Some(s) => Some(s@),
        None => None,
    }
}

impl View for InstallArgs {
    type V = ArgsView;

    open spec fn view(&self) -> ArgsView {
        ArgsView {
            target: sv(self.target),
            non_interactive: self.non_interactive,
            silent: self.silent,
            online: self.online,
            uninstall: self.uninstall,
            source: sv(self.source),
            dfs_extras: sv(self.dfs_extras),
            mirrorc_cdk: sv(self.mirrorc_cdk),
            dump_dir: sv(self.dump_dir),
        }
    }
}

pub open spec fn default_args() -> ArgsView {
    ArgsView {
        target: None,
        non_interactive: false,
        silent: false,
        online: false,
        uninstall: false,
        source: None,
        dfs_extras: None,
        mirrorc_cdk: None,
        dump_dir: None,
    }
}

impl Default for InstallArgs {
    fn default() -> (r: InstallArgs)
        ensures
            r@ == default_args(),
    {
        InstallArgs {
            target: None,
            non_interactive: false,
            silent: false,
            online: false,
            uninstall: false,
            source: None,
            dfs_extras: None,
            mirrorc_cdk: None,
            dump_dir: None,
        }
    }
}

/// The options the parser knows, in the order the help lists them.
#[derive(Clone, Copy, Debug, PartialEq, Eq, Structural)]
pub enum Opt {
    Dir,
    NonInteractive,
    Silent,
    Online,
    Uninstall,
    Source,
    DfsExtras,
    MirrorcCdk,
    DumpDir,
}

pub open spec fn all_opts() -> Seq<Opt> {
    seq![
        Opt::Dir,
        Opt::NonInteractive,
        Opt::Silent,
        Opt::Online,
        Opt::Uninstall,
        Opt::Source,
        Opt::DfsExtras,
        Opt::MirrorcCdk,
        Opt::DumpDir,
    ]
}

pub open spec fn opt_short(o: Opt) -> Option<char> {
    match o {
        Opt::Dir => Some('D'),
        Opt::NonInteractive => Some('I'),
        Opt::Silent => Some('S'),
        Opt::Online => Some('O'),
        Opt::Uninstall => Some('U'),
        _ => None,
    }
}

pub open spec fn opt_long(o: Opt) -> Option<Seq<char>> {
    match o {
        Opt::Source => Some(seq!['s', 'o', 'u', 'r', 'c', 'e']),
        Opt::DfsExtras => Some(seq!['d', 'f', 's', '-', 'e', 'x', 't', 'r', 'a', 's']),
        Opt::MirrorcCdk => Some(seq!['m', 'i', 'r', 'r', 'o', 'r', 'c', '-', 'c', 'd', 'k']),
        Opt::DumpDir => Some(seq!['d', 'u', 'm', 'p', '-', 'd', 'i', 'r']),
        _ => None,
    }
}

pub open spec fn opt_takes_value(o: Opt) -> bool {
    match o {
        Opt::NonInteractive | Opt::Silent | Opt::Online | Opt::Uninstall => false,
        _ => true,
    }
}

pub open spec fn opt_hidden(o: Opt) -> bool {
    opt_long(o) is Some
}

/// The option a short flag names.
pub open spec fn short_opt(c: char) -> Option<Opt> {
    if c == 'D' {
        Some(Opt::Dir)
    } else if c == 'I' {
        Some(Opt::NonInteractive)
    } else if c == 'S' {
        Some(Opt::Silent)
    } else if c == 'O' {
        Some(Opt::Online)
    } else if c == 'U' {
        Some(Opt::Uninstall)
    } else {
        None
    }
}

/// The option a long name names.
pub open spec fn long_opt(name: Seq<char>) -> Option<Opt> {
    if Some(name) == opt_long(Opt::Source) {
        Some(Opt::Source)
    } else if Some(name) == opt_long(Opt::DfsExtras) {
        Some(Opt::DfsExtras)
    } else if Some(name) == opt_long(Opt::MirrorcCdk) {
        Some(Opt::MirrorcCdk)
    } else if Some(name) == opt_long(Opt::DumpDir) {
        Some(Opt::DumpDir)
    } else {
        None
    }
}

/// What a flag without a value sets.
pub open spec fn set_flag(a: ArgsView, o: Opt) -> ArgsView {
    match o {
        Opt::NonInteractive => ArgsView { non_interactive: true, ..a },
        Opt::Silent => ArgsView { silent: true, ..a },
        Opt::Online => ArgsView { online: true, ..a },
        Opt::Uninstall => ArgsView { uninstall: true, ..a },
        _ => a,
    }
}

/// What an option with a value sets.
pub open spec fn set_value(a: ArgsView, o: Opt, v: Seq<char>) -> ArgsView {
    match o {
        Opt::Dir => ArgsView { target: Some(v), ..a },
        Opt::Source => ArgsView { source: Some(v), ..a },
        Opt::DfsExtras => ArgsView { dfs_extras: Some(v), ..a },
        Opt::MirrorcCdk => ArgsView { mirrorc_cdk: Some(v), ..a },
        Opt::DumpDir => ArgsView { dump_dir: Some(v), ..a },
        _ => a,
    }
}

/// A cluster of short flags (the token after its `-`). Unknown letters are
/// skipped; a letter that takes a value takes the rest of the token (after
/// one optional `=`) or else the next token, and ends the cluster. The
/// result tells whether the next token was taken.
pub open spec fn shorts_spec(cs: Seq<char>, a: ArgsView, next: Option<Seq<char>>) -> (ArgsView, bool)
    decreases cs.len(),
{
    if cs.len() == 0 {
        (a, false)
    } else {
        match short_opt(cs[0]) {
            None => shorts_spec(cs.skip(1), a, next),
            Some(o) => if !opt_takes_value(o) {
                shorts_spec(cs.skip(1), set_flag(a, o), next)
            } else {
                let rest0 = cs.skip(1);
                let rest = if rest0.len() > 0 && rest0[0] == '=' {
                    rest0.skip(1)
                } else {
                    rest0
                };
                if rest.len() > 0 {
                    (set_value(a, o, rest), false)
                } else {
                    match next {
                        Some(v) => (set_value(a, o, v), true),
                        None => (a, false),
                    }
                }
            },
        }
    }
}

/// A long option (the token after its `--`): the name up to the first `=`,
/// the value after it or else the next token. Unknown names are skipped.
pub open spec fn long_spec(body: Seq<char>, a: ArgsView, next: Option<Seq<char>>) -> (ArgsView, bool) {
    let (name, inline) = match first_index(body, '=') {
        Some(i) => (body.take(i), Some(body.skip(i + 1))),
        None => (body, None::<Seq<char>>),
    };
    match long_opt(name) {
        Some(o) => match inline {
            Some(v) => (set_value(a, o, v), false),
            None => match next {
                Some(v) => (set_value(a, o, v), true),
                None => (a, false),
            },
        },
        None => (a, false),
    }
}

pub open spec fn word_s() -> Seq<char> {
    seq!['S']
}

pub open spec fn word_verysilent() -> Seq<char> {
    seq!['V', 'E', 'R', 'Y', 'S', 'I', 'L', 'E', 'N', 'T']
}

pub open spec fn word_silent() -> Seq<char> {
    seq!['S', 'I', 'L', 'E', 'N', 'T']
}

pub open spec fn word_dir_eq() -> Seq<char> {
    seq!['D', 'I', 'R', '=']
}

/// `s` without leading and trailing `c`, as `str::trim_matches` gives it.
pub open spec fn trim_both_char(s: Seq<char>, c: char) -> Seq<char> {
    trim_end_char(trim_start_char(s, c), c)
}

/// A slash switch (the token after its `/`), matched without regard to
/// ASCII case: `/S` and `/VERYSILENT` make the install silent, `/SILENT`
/// non-interactive, and `/DIR=<path>` (quotes trimmed) names the target.
/// Other switches are dropped.
pub open spec fn slash_spec(rest: Seq<char>, a: ArgsView, slash: Option<Seq<char>>) -> (
    ArgsView,
    Option<Seq<char>>,
) {
    let upper = rest.map_values(|c: char| ascii_up(c));
    if upper == word_s() || upper == word_verysilent() {
        (ArgsView { silent: true, ..a }, slash)
    } else if upper == word_silent() {
        (ArgsView { non_interactive: true, ..a }, slash)
    } else if has_prefix(upper, word_dir_eq()) {
        let value = trim_both_char(rest.skip(4), '"');
        if value.len() > 0 {
            (a, Some(value))
        } else {
            (a, slash)
        }
    } else {
        (a, slash)
    }
}

pub open spec fn is_help_token(t: Seq<char>) -> bool {
    t == seq!['-', 'h'] || t == seq!['-', '-', 'h', 'e', 'l', 'p'] || t == seq!['/', '?']
}

pub open spec fn next_token(argv: Seq<Seq<char>>, i: int) -> Option<Seq<char>> {
    if i + 1 < argv.len() {
        Some(argv[i + 1])
    } else {
        None
    }
}

/// Reading the install options from token `i` on; `None` when help was
/// asked for. The second part is the target a `/DIR=` switch named.
pub open spec fn install_from(
    argv: Seq<Seq<char>>,
    i: int,
    a: ArgsView,
    slash: Option<Seq<char>>,
) -> Option<(ArgsView, Option<Seq<char>>)>
    decreases argv.len() + 2 - i,
{
    if i < 0 || i >= argv.len() {
        Some((a, slash))
    } else {
        let tok = argv[i];
        if is_help_token(tok) {
            None
        } else if tok.len() > 0 && tok[0] == '/' {
            let (a2, s2) = slash_spec(tok.skip(1), a, slash);
            install_from(argv, i + 1, a2, s2)
        } else if tok.len() >= 2 && tok[0] == '-' && tok[1] == '-' {
            let (a2, took) = long_spec(tok.skip(2), a, next_token(argv, i));
            install_from(argv, if took { i + 2 } else { i + 1 }, a2, slash)
        } else if tok.len() > 0 && tok[0] == '-' {
            let (a2, took) = shorts_spec(tok.skip(1), a, next_token(argv, i));
            install_from(argv, if took { i + 2 } else { i + 1 }, a2, slash)
        } else {
            install_from(argv, i + 1, a, slash)
        }
    }
}

/// The install options `argv` asks for; `None` when it asks for help. The
/// target is, by precedence: an explicit `-D`, the raw command line's `/D=`
/// tail, a `/DIR=` switch.
pub open spec fn install_spec(argv: Seq<Seq<char>>, d_tail: Option<Seq<char>>) -> Option<ArgsView> {
    match install_from(argv, 0, default_args(), None) {
        Some((a, slash)) => Some(
            if a.target is None {
                ArgsView { target: if d_tail is Some { d_tail } else { slash }, ..a }
            } else {
                a
            },
        ),
        None => None,
    }
}

proof fn lemma_install_shift(t: Seq<char>, av: Seq<Seq<char>>, i: int, a: ArgsView, slash: Option<Seq<char>>)
    requires
        0 <= i,
    ensures
        install_from(seq![t] + av, i + 1, a, slash) == install_from(av, i, a, slash),
    decreases av.len() + 2 - i,
{
    let full = seq![t] + av;
    if i < av.len() {
        assert(full[i + 1] == av[i]);
        assert(next_token(full, i + 1) == next_token(av, i)) by {
            if i + 1 < av.len() {
                assert(full[i + 2] == av[i + 1]);
            }
        }
        let tok = av[i];
        if is_help_token(tok) {
        } else if tok.len() > 0 && tok[0] == '/' {
            let (a2, s2) = slash_spec(tok.skip(1), a, slash);
            lemma_install_shift(t, av, i + 1, a2, s2);
        } else if tok.len() >= 2 && tok[0] == '-' && tok[1] == '-' {
            let (a2, took) = long_spec(tok.skip(2), a, next_token(av, i));
            lemma_install_shift(t, av, if took { i + 2 } else { i + 1 }, a2, slash);
        } else if tok.len() > 0 && tok[0] == '-' {
            let (a2, took) = shorts_spec(tok.skip(1), a, next_token(av, i));
            lemma_install_shift(t, av, if took { i + 2 } else { i + 1 }, a2, slash);
        } else {
            lemma_install_shift(t, av, i + 1, a, slash);
        }
    }
}

/// A bare positional token (a dropped file and the like) changes nothing:
/// the options read are those of the other tokens.
pub proof fn lemma_positional_ignored(t: Seq<char>, argv: Seq<Seq<char>>, d_tail: Option<Seq<char>>)
    requires
        t.len() == 0 || (t[0] != '-' && t[0] != '/'),
    ensures
        install_spec(seq![t] + argv, d_tail) == install_spec(argv, d_tail),
{
    let full = seq![t] + argv;
    assert(full[0] == t);
    assert(!is_help_token(t)) by {
        if t.len() > 0 {
            assert(seq!['-', 'h'][0] == '-');
            assert(seq!['-', '-', 'h', 'e', 'l', 'p'][0] == '-');
            assert(seq!['/', '?'][0] == '/');
        } else {
            assert(seq!['-', 'h'].len() == 2);
        }
    }
    lemma_install_shift(t, argv, 0, default_args(), None);
}

/// The tokens as plain text.
pub open spec fn argv_view(argv: Seq<String>) -> Seq<Seq<char>> {
    argv.map_values(|s: String| s@)
}

fn find_short(c: char) -> (r: Option<Opt>)
    ensures
        r == short_opt(c),
{
    if c == 'D' {
        Some(Opt::Dir)
    } else if c == 'I' {
        Some(Opt::NonInteractive)
    } else if c == 'S' {
        Some(Opt::Silent)
    } else if c == 'O' {
        Some(Opt::Online)
    } else if c == 'U' {
        Some(Opt::Uninstall)
    } else {
        None
    }
}

fn find_long(name: &[char]) -> (r: Option<Opt>)
    ensures
        r == long_opt(name@),
{
    proof {
        reveal_strlit("source");
        reveal_strlit("dfs-extras");
        reveal_strlit("mirrorc-cdk");
        reveal_strlit("dump-dir");
        assert("source"@ =~= opt_long(Opt::Source)->Some_0);
        assert("dfs-extras"@ =~= opt_long(Opt::DfsExtras)->Some_0);
        assert("mirrorc-cdk"@ =~= opt_long(Opt::MirrorcCdk)->Some_0);
        assert("dump-dir"@ =~= opt_long(Opt::DumpDir)->Some_0);
    }
    if chars_eq(name, &chars_of("source")) {
        Some(Opt::Source)
    } else if chars_eq(name, &chars_of("dfs-extras")) {
        Some(Opt::DfsExtras)
    } else if chars_eq(name, &chars_of("mirrorc-cdk")) {
        Some(Opt::MirrorcCdk)
    } else if chars_eq(name, &chars_of("dump-dir")) {
        Some(Opt::DumpDir)
    } else {
        None
    }
}

fn takes_value(o: Opt) -> (r: bool)
    ensures
        r == opt_takes_value(o),
{
    match o {
        Opt::NonInteractive | Opt::Silent | Opt::Online | Opt::Uninstall => false,
        _ => true,
    }
}

fn set_flag_exec(a: &mut InstallArgs, o: Opt)
    ensures
        final(a)@ == set_flag(old(a)@, o),
{
    match o {
        Opt::NonInteractive => a.non_interactive = true,
        Opt::Silent => a.silent = true,
        Opt::Online => a.online = true,
        Opt::Uninstall => a.uninstall = true,
        _ => {},
    }
}

fn set_value_exec(a: &mut InstallArgs, o: Opt, v: String)
    ensures
        final(a)@ == set_value(old(a)@, o, v@),
{
    match o {
        Opt::Dir => a.target = Some(v),
        Opt::Source => a.source = Some(v),
        Opt::DfsExtras => a.dfs_extras = Some(v),
        Opt::MirrorcCdk => a.mirrorc_cdk = Some(v),
        Opt::DumpDir => a.dump_dir = Some(v),
        _ => {},
    }
}

pub open spec fn ref_view(o: Option<&String>) -> Option<Seq<char>> {
    match o {
        Some(s) => Some(s@),
        None => None,
    }
}

/// Applies a cluster of short flags; tells whether the next token was
/// taken as a value.
fn apply_shorts(cs: &[char], a: &mut InstallArgs, next: Option<&String>) -> (took: bool)
    ensures
        (final(a)@, took) == shorts_spec(cs@, old(a)@, ref_view(next)),
{
    let mut j: usize = 0;
    assert(cs@.skip(0) == cs@);
    while j < cs.len()
        invariant
            j <= cs.len(),
            shorts_spec(cs@, old(a)@, ref_view(next)) == shorts_spec(cs@.skip(j as int), a@, ref_view(next)),
        decreases cs.len() - j,
    {
        let ghost rest_here = cs@.skip(j as int);
        assert(rest_here[0] == cs@[j as int]);
        assert(rest_here.skip(1) == cs@.skip(j + 1 as int));
        match find_short(cs[j]) {
            None => {},
            Some(o) => {
                if !takes_value(o) {
                    set_flag_exec(a, o);
                } else {
                    let mut from = j + 1;
                    if from < cs.len() && cs[from] == '=' {
                        assert(cs@.skip(j + 1 as int)[0] == cs@[j + 1 as int]);
                        assert(cs@.skip(j + 1 as int).skip(1) == cs@.skip(j + 2 as int));
                        from = from + 1;
                    }
                    assert(cs@.skip(from as int) == cs@.subrange(from as int, cs.len() as int));
                    if from < cs.len() {
                        let v = string_of(&slice_chars(cs, from, cs.len()));
                        set_value_exec(a, o, v);
                        return false;
                    } else {
                        match next {
                            Some(v) => {
                                set_value_exec(a, o, v.clone());
                                return true;
                            },
                            None => {
                                return false;
                            },
                        }
                    }
                }
            },
        }
        j += 1;
    }
    false
}

/// Applies a long option; tells whether the next token was taken as a
/// value.
fn apply_long(body: &[char], a: &mut InstallArgs, next: Option<&String>) -> (took: bool)
    ensures
        (final(a)@, took) == long_spec(body@, old(a)@, ref_view(next)),
{
    let (name, inline) = match find_char(body, '=') {
        Some(i) => {
            assert(body@.take(i as int) == body@.subrange(0, i as int));
            assert(body@.skip(i + 1 as int) == body@.subrange(i + 1 as int, body.len() as int));
            (slice_chars(body, 0, i), Some(slice_chars(body, i + 1, body.len())))
        },
        None => {
            assert(body@.subrange(0, body.len() as int) == body@);
            (slice_chars(body, 0, body.len()), None)
        },
    };
    match find_long(&name) {
        Some(o) => match inline {
            Some(v) => {
                set_value_exec(a, o, string_of(&v));
                false
            },
            None => match next {
                Some(v) => {
                    set_value_exec(a, o, v.clone());
                    true
                },
                None => false,
            },
        },
        None => false,
    }
}

/// `s` without leading and trailing `c`.
fn trim_both(s: &[char], c: char) -> (r: Vec<char>)
    ensures
        r@ == trim_both_char(s@, c),
{
    let t = trim_start_char_exec(s, c);
    trim_end_char_exec(&t, c)
}

/// Applies a slash switch (the text after its `/`).
pub fn apply_slash(rest: &str, args: &mut InstallArgs, slash_target: &mut Option<String>)
    ensures
        (final(args)@, sv(*final(slash_target))) == slash_spec(rest@, old(args)@, sv(*old(slash_target))),
{
    proof {
        reveal_strlit("S");
        reveal_strlit("VERYSILENT");
        reveal_strlit("SILENT");
        reveal_strlit("DIR=");
        assert("S"@ =~= word_s());
        assert("VERYSILENT"@ =~= word_verysilent());
        assert("SILENT"@ =~= word_silent());
        assert("DIR="@ =~= word_dir_eq());
    }
    let cs = chars_of(rest);
    let upper = ascii_upper(&cs);
    if chars_eq(&upper, &chars_of("S")) || chars_eq(&upper, &chars_of("VERYSILENT")) {
        args.silent = true;
    } else if chars_eq(&upper, &chars_of("SILENT")) {
        args.non_interactive = true;
    } else if starts_with_chars(&upper, &chars_of("DIR=")) {
        assert(cs@.skip(4) == cs@.subrange(4, cs.len() as int));
        let value = trim_both(&slice_chars(&cs, 4, cs.len()), '"');
        if value.len() > 0 {
            *slash_target = Some(string_of(&value));
        }
    }
}

/// A value is taken from the next token only when there is one.
proof fn lemma_shorts_took(cs: Seq<char>, a: ArgsView, next: Option<Seq<char>>)
    ensures
        shorts_spec(cs, a, next).1 ==> next is Some,
    decreases cs.len(),
{
    if cs.len() > 0 {
        match short_opt(cs[0]) {
            None => lemma_shorts_took(cs.skip(1), a, next),
            Some(o) => if !opt_takes_value(o) {
                lemma_shorts_took(cs.skip(1), set_flag(a, o), next);
            },
        }
    }
}

fn is_help(tok: &[char]) -> (r: bool)
    ensures
        r == is_help_token(tok@),
{
    proof {
        reveal_strlit("-h");
        reveal_strlit("--help");
        reveal_strlit("/?");
        assert("-h"@ =~= seq!['-', 'h']);
        assert("--help"@ =~= seq!['-', '-', 'h', 'e', 'l', 'p']);
        assert("/?"@ =~= seq!['/', '?']);
    }
    chars_eq(tok, &chars_of("-h")) || chars_eq(tok, &chars_of("--help")) || chars_eq(
        tok,
        &chars_of("/?"),
    )
}

/// The install options `argv` asks for; `Err(CliExit::Help)` when it asks
/// for help. `d_tail` is the raw command line's `/D=` tail.
pub fn parse_install(argv: &[String], d_tail: Option<String>) -> (r: Result<InstallArgs, CliExit>)
    ensures
        match r {
            Ok(a) => install_spec(argv_view(argv@), sv(d_tail)) == Some(a@),
            Err(e) => e == CliExit::Help && install_spec(argv_view(argv@), sv(d_tail)) is None,
        },
{
    let ghost av = argv_view(argv@);
    let mut args = InstallArgs::default();
    let mut slash_target: Option<String> = None;
    let mut i: usize = 0;
    while i < argv.len()
        invariant
            av == argv_view(argv@),
            i <= argv.len() + 1,
            install_from(av, 0, default_args(), None) == install_from(av, i as int, args@, sv(slash_target)),
        decreases argv.len() + 2 - i,
    {
        let tok = chars_of(argv[i].as_str());
        assert(av[i as int] == tok@);
        let next = if i + 1 < argv.len() {
            Some(&argv[i + 1])
        } else {
            None
        };
        assert(i + 1 < argv.len() ==> av[i + 1 as int] == argv@[i + 1 as int]@);
        assert(ref_view(next) == next_token(av, i as int));
        if is_help(&tok) {
            return Err(CliExit::Help);
        }
        if tok.len() > 0 && tok[0] == '/' {
            assert(tok@.skip(1) == tok@.subrange(1, tok.len() as int));
            let rest = string_of(&slice_chars(&tok, 1, tok.len()));
            apply_slash(rest.as_str(), &mut args, &mut slash_target);
            i += 1;
        } else if tok.len() >= 2 && tok[0] == '-' && tok[1] == '-' {
            assert(tok@.skip(2) == tok@.subrange(2, tok.len() as int));
            let took = apply_long(&slice_chars(&tok, 2, tok.len()), &mut args, next);
            i = if took { i + 2 } else { i + 1 };
        } else if tok.len() > 0 && tok[0] == '-' {
            assert(tok@.skip(1) == tok@.subrange(1, tok.len() as int));
            let ghost before = args@;
            let took = apply_shorts(&slice_chars(&tok, 1, tok.len()), &mut args, next);
            proof {
                lemma_shorts_took(tok@.skip(1), before, ref_view(next));
            }
            i = if took { i + 2 } else { i + 1 };
        } else {
            i += 1;
        }
    }
    if args.target.is_none() {
        args.target = match d_tail {
            Some(t) => Some(t),
            None => slash_target,
        };
    }
    Ok(args)
}

/// The tokens after the first.
fn tail(argv: &[String]) -> (r: Vec<String>)
    requires
        argv@.len() > 0,
    ensures
        argv_view(r@) == argv_view(argv@).skip(1),
{
    let mut r: Vec<String> = Vec::new();
    let mut i: usize = 1;
    while i < argv.len()
        invariant
            1 <= i <= argv.len(),
            argv_view(r@) == argv_view(argv@).subrange(1, i as int),
        decreases argv.len() - i,
    {
        let t = argv[i].clone();
        proof {
            assert(argv_view(argv@)[i as int] == argv@[i as int]@);
            assert(argv_view(r@.push(t)) =~= argv_view(r@).push(t@));
            assert(argv_view(r@.push(t)) =~= argv_view(argv@).subrange(1, i + 1 as int));
        }
        r.push(t);
        i += 1;
    }
    assert(argv_view(argv@).subrange(1, argv.len() as int) == argv_view(argv@).skip(1));
    r
}

/// The elevated helper's options: the pipe name is the first token.
fn parse_uac(argv: &[String]) -> (r: Result<UacArgs, CliExit>)
    ensures
        match r {
            Ok(u) => argv@.len() > 0 && u.pipe_id@ == argv_view(argv@)[0],
            Err(e) => e == CliExit::MissingPipeId && argv@.len() == 0,
        },
{
    if argv.len() == 0 {
        return Err(CliExit::MissingPipeId);
    }
    Ok(UacArgs { pipe_id: argv[0].clone() })
}

/// What a command line asks for, by its first token: `install`,
/// `native-ui`, `install-webview2`, `headless-uac`, or else an install with
/// every token as an option.
pub fn parse_from(argv: &[String], d_tail: Option<String>) -> (r: Result<Command, CliExit>)
    ensures
        ({
            let av = argv_view(argv@);
            let first = if av.len() > 0 { av[0] } else { Seq::<char>::empty() };
            let rest = if av.len() > 0 { av.skip(1) } else { av };
            if av.len() > 0 && first == seq!['i', 'n', 's', 't', 'a', 'l', 'l'] {
                match r {
                    Ok(Command::Install(a)) => install_spec(rest, sv(d_tail)) == Some(a@),
                    Err(e) => e == CliExit::Help && install_spec(rest, sv(d_tail)) is None,
                    _ => false,
                }
            } else if av.len() > 0 && first == seq!['n', 'a', 't', 'i', 'v', 'e', '-', 'u', 'i'] {
                match r {
                    Ok(Command::NativeUi(a)) => install_spec(rest, sv(d_tail)) == Some(a@),
                    Err(e) => e == CliExit::Help && install_spec(rest, sv(d_tail)) is None,
                    _ => false,
                }
            } else if av.len() > 0 && first == seq![
                'i', 'n', 's', 't', 'a', 'l', 'l', '-', 'w', 'e', 'b', 'v', 'i', 'e', 'w', '2'
            ] {
                r == Ok::<Command, CliExit>(Command::InstallWebview2)
            } else if av.len() > 0 && first == seq![
                'h', 'e', 'a', 'd', 'l', 'e', 's', 's', '-', 'u', 'a', 'c'
            ] {
                match r {
                    Ok(Command::HeadlessUac(u)) => rest.len() > 0 && u.pipe_id@ == rest[0],
                    Err(e) => e == CliExit::MissingPipeId && rest.len() == 0,
                    _ => false,
                }
            } else {
                match r {
                    Ok(Command::Install(a)) => install_spec(av, sv(d_tail)) == Some(a@),
                    Err(e) => e == CliExit::Help && install_spec(av, sv(d_tail)) is None,
                    _ => false,
                }
            }
        }),
{
    proof {
        reveal_strlit("install");
        reveal_strlit("native-ui");
        reveal_strlit("install-webview2");
        reveal_strlit("headless-uac");
        assert("install"@ =~= seq!['i', 'n', 's', 't', 'a', 'l', 'l']);
        assert("native-ui"@ =~= seq!['n', 'a', 't', 'i', 'v', 'e', '-', 'u', 'i']);
        assert("install-webview2"@ =~= seq![
            'i', 'n', 's', 't', 'a', 'l', 'l', '-', 'w', 'e', 'b', 'v', 'i', 'e', 'w', '2'
        ]);
        assert("headless-uac"@ =~= seq!['h', 'e', 'a', 'd', 'l', 'e', 's', 's', '-', 'u', 'a', 'c']);
    }
    if argv.len() > 0 {
        let first = chars_of(argv[0].as_str());
        let rest_v = tail(argv);
        let rest = rest_v.as_slice();
        if chars_eq(&first, &chars_of("install")) {
            return match parse_install(rest, d_tail) {
                Ok(a) => Ok(Command::Install(a)),
                Err(e) => Err(e),
            };
        } else if chars_eq(&first, &chars_of("native-ui")) {
            return match parse_install(rest, d_tail) {
                Ok(a) => Ok(Command::NativeUi(a)),
                Err(e) => Err(e),
            };
        } else if chars_eq(&first, &chars_of("install-webview2")) {
            return Ok(Command::InstallWebview2);
        } else if chars_eq(&first, &chars_of("headless-uac")) {
            return match parse_uac(rest) {
                Ok(u) => Ok(Command::HeadlessUac(u)),
                Err(e) => Err(e),
            };
        }
    }
    match parse_install(argv, d_tail) {
        Ok(a) => Ok(Command::Install(a)),
        Err(e) => Err(e),
    }
}

pub open spec fn d_eq() -> Seq<char> {
    seq!['/', 'd', '=']
}

/// `s` without leading and trailing whitespace, as `str::trim` gives it.
pub open spec fn trim_ws(s: Seq<char>) -> Seq<char> {
    trim_end_ws(trim_start_ws(s))
}

/// `v` without one pair of surrounding double quotes, when it has both.
pub open spec fn unquote(v: Seq<char>) -> Seq<char> {
    if v.len() > 0 && v[0] == '"' && v.skip(1).len() > 0 && v.skip(1).last() == '"' {
        v.skip(1).drop_last()
    } else {
        v
    }
}

/// The `/D=` value at `p`: the rest of the line, trimmed and unquoted;
/// `None` when that is empty.
pub open spec fn tail_value(s: Seq<char>, p: int) -> Option<Seq<char>> {
    let v = unquote(trim_ws(s.skip(p + 3)));
    if v.len() == 0 {
        None
    } else {
        Some(v)
    }
}

/// Scans for the first `/D=` (any ASCII case) at or after `p` that starts a
/// token, i.e. follows a space or a tab.
pub open spec fn d_tail_scan(s: Seq<char>, p: int) -> Option<Seq<char>>
    decreases s.len() - p,
{
    if p < 0 || p + 3 > s.len() {
        None
    } else if occurs_at(s.map_values(|c: char| ascii_down(c)), d_eq(), p) && p > 0 && (s[p - 1]
        == ' ' || s[p - 1] == '\t') {
        tail_value(s, p)
    } else {
        d_tail_scan(s, p + 1)
    }
}

/// NSIS's `/D=`: taken from the raw command line, unquoted, spaces
/// allowed, up to the end of the line.
pub fn d_tail_from(cmdline: &str) -> (r: Option<String>)
    ensures
        sv(r) == d_tail_scan(cmdline@, 0),
{
    let cs = chars_of(cmdline);
    let lower = ascii_lower(&cs);
    let ghost lv = cmdline@.map_values(|c: char| ascii_down(c));
    let mut p: usize = 0;
    while p <= cs.len() && cs.len() - p >= 3
        invariant
            cs@ == cmdline@,
            lower@ == lv,
            lv == cmdline@.map_values(|c: char| ascii_down(c)),
            d_tail_scan(cmdline@, 0) == d_tail_scan(cmdline@, p as int),
        decreases cs.len() - p,
    {
        let hit = lower[p] == '/' && lower[p + 1] == 'd' && lower[p + 2] == '=';
        assert(hit == occurs_at(lv, d_eq(), p as int)) by {
            if hit {
                assert(lv.subrange(p as int, p + 3 as int) =~= d_eq());
            } else if occurs_at(lv, d_eq(), p as int) {
                assert(lv.subrange(p as int, p + 3 as int)[0] == lv[p as int]);
                assert(lv.subrange(p as int, p + 3 as int)[1] == lv[p + 1 as int]);
                assert(lv.subrange(p as int, p + 3 as int)[2] == lv[p + 2 as int]);
            }
        }
        if hit && p > 0 && (cs[p - 1] == ' ' || cs[p - 1] == '\t') {
            assert(cmdline@.skip(p + 3 as int) == cs@.subrange(p + 3 as int, cs.len() as int));
            let t = trim_start_ws_exec(&slice_chars(&cs, p + 3, cs.len()));
            let v = trim_end_ws_exec(&t);
            let n = v.len();
            let value = if n > 0 && v[0] == '"' && n - 1 > 0 && v[n - 1] == '"' {
                assert(v@.skip(1).last() == v@[n - 1 as int]);
                assert(v@.skip(1).drop_last() == v@.subrange(1, n - 1 as int));
                slice_chars(&v, 1, n - 1)
            } else {
                v
            };
            if value.len() == 0 {
                return None;
            }
            return Some(string_of(&value));
        }
        p += 1;
    }
    None
}

pub open spec fn opt_value_name(o: Opt) -> Seq<char> {
    match o {
        Opt::Dir => "DIR"@,
        Opt::Source => "ID"@,
        Opt::DfsExtras => "JSON"@,
        Opt::MirrorcCdk => "CDK"@,
        Opt::DumpDir => "DIR"@,
        _ => Seq::empty(),
    }
}

pub open spec fn opt_help(o: Opt) -> Seq<char> {
    match o {
        Opt::Dir => "Install directory"@,
        Opt::NonInteractive => "Non-interactive install"@,
        Opt::Silent => "Silent install"@,
        Opt::Online => "Force online install"@,
        Opt::Uninstall => "Uninstall"@,
        Opt::Source => "Override install source"@,
        Opt::DfsExtras => "DFS extra data"@,
        Opt::MirrorcCdk => "Override MirrorChyan CDK"@,
        Opt::DumpDir => "Write session dump JSON here (dev / tests only)"@,
    }
}

/// The left column of an option's help line: `  -D <DIR>` and the like.
pub open spec fn opt_lhs(o: Opt) -> Seq<char> {
    let short = match opt_short(o) {
        Some(c) => seq!['-', c],
        None => Seq::empty(),
    };
    let long = match opt_long(o) {
        Some(l) => (if opt_short(o) is Some { seq![',', ' '] } else { Seq::empty() }) + seq!['-', '-'] + l,
        None => Seq::empty(),
    };
    let value = if opt_takes_value(o) {
        seq![' ', '<'] + opt_value_name(o) + seq!['>']
    } else {
        Seq::empty()
    };
    seq![' ', ' '] + short + long + value
}

/// `s` padded with spaces to `w` characters, as `{:<w}` formats it.
pub open spec fn padded(s: Seq<char>, w: nat) -> Seq<char> {
    if s.len() >= w {
        s
    } else {
        s + Seq::new((w - s.len()) as nat, |i: int| ' ')
    }
}

/// The help lines of the visible options among `opts`.
pub open spec fn option_lines(opts: Seq<Opt>) -> Seq<char>
    decreases opts.len(),
{
    if opts.len() == 0 {
        Seq::empty()
    } else {
        option_lines(opts.drop_last()) + if opt_hidden(opts.last()) {
            Seq::empty()
        } else {
            padded(opt_lhs(opts.last()), 18) + opt_help(opts.last()) + seq!['\n']
        }
    }
}

pub open spec fn help_spec() -> Seq<char> {
    "Kachina Installer\n\nUsage: installer.exe [OPTIONS]\n\nOptions:\n"@ + option_lines(all_opts())
        + padded("  -h, --help"@, 18) + "Print help\n"@
}

fn opt_at(k: usize) -> (o: Opt)
    requires
        k < 9,
    ensures
        o == all_opts()[k as int],
{
    if k == 0 {
        Opt::Dir
    } else if k == 1 {
        Opt::NonInteractive
    } else if k == 2 {
        Opt::Silent
    } else if k == 3 {
        Opt::Online
    } else if k == 4 {
        Opt::Uninstall
    } else if k == 5 {
        Opt::Source
    } else if k == 6 {
        Opt::DfsExtras
    } else if k == 7 {
        Opt::MirrorcCdk
    } else {
        Opt::DumpDir
    }
}

fn push_padded(out: &mut String, s: &[char], w: usize)
    ensures
        final(out)@ == old(out)@ + padded(s@, w as nat),
{
    push_chars(out, s);
    if s.len() < w {
        let mut n: usize = s.len();
        let ghost base = old(out)@ + s@;
        assert(Seq::new(0nat, |i: int| ' ') =~= Seq::<char>::empty());
        assert(base + Seq::<char>::empty() == base);
        while n < w
            invariant
                s.len() <= n <= w,
                out@ == base + Seq::new((n - s.len()) as nat, |i: int| ' '),
            decreases w - n,
        {
            out.push(' ');
            proof {
                assert(Seq::new((n - s.len()) as nat, |i: int| ' ').push(' ') =~= Seq::new(
                    (n + 1 - s.len()) as nat,
                    |i: int| ' ',
                ));
            }
            n += 1;
        }
    }
}

fn value_name(o: Opt) -> (r: &'static str)
    ensures
        r@ == opt_value_name(o),
{
    match o {
        Opt::Dir => "DIR",
        Opt::Source => "ID",
        Opt::DfsExtras => "JSON",
        Opt::MirrorcCdk => "CDK",
        Opt::DumpDir => "DIR",
        _ => {
            proof {
                reveal_strlit("");
            }
            ""
        },
    }
}

fn help_of(o: Opt) -> (r: &'static str)
    ensures
        r@ == opt_help(o),
{
    match o {
        Opt::Dir => "Install directory",
        Opt::NonInteractive => "Non-interactive install",
        Opt::Silent => "Silent install",
        Opt::Online => "Force online install",
        Opt::Uninstall => "Uninstall",
        Opt::Source => "Override install source",
        Opt::DfsExtras => "DFS extra data",
        Opt::MirrorcCdk => "Override MirrorChyan CDK",
        Opt::DumpDir => "Write session dump JSON here (dev / tests only)",
    }
}

fn lhs_of(o: Opt) -> (r: Vec<char>)
    ensures
        r@ == opt_lhs(o),
{
    let mut v: Vec<char> = Vec::new();
    v.push(' ');
    v.push(' ');
    let short = find_short_of(o);
    match short {
        Some(c) => {
            v.push('-');
            v.push(c);
        },
        None => {},
    }
    let ghost after_short = v@;
    match long_of(o) {
        Some(l) => {
            if short.is_some() {
                v.push(',');
                v.push(' ');
            }
            v.push('-');
            v.push('-');
            let lc = chars_of(l);
            let mut k: usize = 0;
            let ghost mid = v@;
            while k < lc.len()
                invariant
                    k <= lc.len(),
                    v@ == mid + lc@.take(k as int),
                decreases lc.len() - k,
            {
                v.push(lc[k]);
                k += 1;
                assert(lc@.take(k as int) == lc@.take(k - 1 as int).push(lc@[k - 1 as int]));
            }
            assert(lc@.take(lc.len() as int) == lc@);
        },
        None => {},
    }
    if takes_value(o) {
        v.push(' ');
        v.push('<');
        let vc = chars_of(value_name(o));
        let mut k: usize = 0;
        let ghost mid = v@;
        while k < vc.len()
            invariant
                k <= vc.len(),
                v@ == mid + vc@.take(k as int),
            decreases vc.len() - k,
        {
            v.push(vc[k]);
            k += 1;
            assert(vc@.take(k as int) == vc@.take(k - 1 as int).push(vc@[k - 1 as int]));
        }
        assert(vc@.take(vc.len() as int) == vc@);
        v.push('>');
    }
    assert(v@ =~= opt_lhs(o));
    v
}

fn find_short_of(o: Opt) -> (r: Option<char>)
    ensures
        r == opt_short(o),
{
    match o {
        Opt::Dir => Some('D'),
        Opt::NonInteractive => Some('I'),
        Opt::Silent => Some('S'),
        Opt::Online => Some('O'),
        Opt::Uninstall => Some('U'),
        _ => None,
    }
}

fn long_of(o: Opt) -> (r: Option<&'static str>)
    ensures
        match r {
            Some(l) => opt_long(o) == Some(l@),
            None => opt_long(o) is None,
        },
{
    proof {
        reveal_strlit("source");
        reveal_strlit("dfs-extras");
        reveal_strlit("mirrorc-cdk");
        reveal_strlit("dump-dir");
        assert("source"@ =~= opt_long(Opt::Source)->Some_0);
        assert("dfs-extras"@ =~= opt_long(Opt::DfsExtras)->Some_0);
        assert("mirrorc-cdk"@ =~= opt_long(Opt::MirrorcCdk)->Some_0);
        assert("dump-dir"@ =~= opt_long(Opt::DumpDir)->Some_0);
    }
    match o {
        Opt::Source => Some("source"),
        Opt::DfsExtras => Some("dfs-extras"),
        Opt::MirrorcCdk => Some("mirrorc-cdk"),
        Opt::DumpDir => Some("dump-dir"),
        _ => None,
    }
}

/// The usage text: the visible options, each padded to a column, then the
/// help flag.
pub fn help_text() -> (r: String)
    ensures
        r@ == help_spec(),
{
    let mut out = String::from_str("Kachina Installer\n\nUsage: installer.exe [OPTIONS]\n\nOptions:\n");
    let ghost head = out@;
    let mut k: usize = 0;
    assert(all_opts().take(0) == Seq::<Opt>::empty());
    assert(head + option_lines(Seq::<Opt>::empty()) == head);
    while k < 9
        invariant
            k <= 9,
            out@ == head + option_lines(all_opts().take(k as int)),
        decreases 9 - k,
    {
        let o = opt_at(k);
        let ghost t = all_opts().take(k as int + 1);
        assert(t.drop_last() == all_opts().take(k as int));
        assert(t.last() == o);
        if long_of(o).is_none() {
            let lhs = lhs_of(o);
            push_padded(&mut out, &lhs, 18);
            out.append(help_of(o));
            out.push('\n');
            proof {
                assert(out@ =~= head + option_lines(t));
            }
        } else {
            assert(option_lines(t) == option_lines(t.drop_last()) + Seq::<char>::empty());
            assert(option_lines(t) =~= option_lines(t.drop_last()));
        }
        k += 1;
    }
    assert(all_opts().take(9) == all_opts());
    push_padded(&mut out, &chars_of("  -h, --help"), 18);
    out.append("Print help\n");
    out
}

} // verus!
