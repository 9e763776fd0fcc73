//! The commands that the MIDI clock generator programs read from a line of
//! text: the console loop, the scripted command handler and the older
//! arrow-key utility's handler.

use vstd::prelude::*;
use vstd::string::*;
use crate::text::{same_text, trim_str, trimmed};

verus! {

/// What a line of input asks of the clock generator.
#[derive(Debug, Clone, Copy, PartialEq, Eq, Structural)]
pub enum GeneratorInput {
    /// Nothing but white space was typed.
    Blank,
    Quit,
    StartStop,
    ShowStatus,
    ShowHelp,
    ToggleTestMode,
    /// Raise the tempo by this many BPM.
    RaiseBpm(u32),
    /// Lower the tempo by this many BPM.
    LowerBpm(u32),
    /// None of the fixed words: the caller may still read a tempo from it.
    Other,
}

/// `s` is one to three copies of `c`.
pub open spec fn repeats(s: Seq<char>, c: char) -> bool {
    1 <= s.len() <= 3 && forall|i: int| 0 <= i < s.len() ==> s[i] == c
}

/// The tempo step of a letter typed once, twice or three times: 1, 10, 50.
pub open spec fn repeat_step(n: nat) -> u32 {
    if n == 1 {
        1
    } else if n == 2 {
        10
    } else {
        50
    }
}

/// `u`, `uu`, `uuu` raise the tempo by 1, 10, 50; `d`, `dd`, `ddd` lower it.
pub open spec fn tempo_input(s: Seq<char>) -> GeneratorInput {
    if repeats(s, 'u') {
        GeneratorInput::RaiseBpm(repeat_step(s.len()))
    } else if repeats(s, 'd') {
        GeneratorInput::LowerBpm(repeat_step(s.len()))
    } else {
        GeneratorInput::Other
    }
}

/// The scripted handler's words: `q`/`quit`/`exit`, `s`/`start`, `status`,
/// `h`/`help`, then the tempo letters.
pub open spec fn script_input(s: Seq<char>) -> GeneratorInput {
    if s == seq!['q'] || s == seq!['q', 'u', 'i', 't'] || s == seq!['e', 'x', 'i', 't'] {
        GeneratorInput::Quit
    } else if s == seq!['s'] || s == seq!['s', 't', 'a', 'r', 't'] {
        GeneratorInput::StartStop
    } else if s == seq!['s', 't', 'a', 't', 'u', 's'] {
        GeneratorInput::ShowStatus
    } else if s == seq!['h'] || s == seq!['h', 'e', 'l', 'p'] {
        GeneratorInput::ShowHelp
    } else {
        tempo_input(s)
    }
}

/// The console loop trims the line; then `s`, `t`, `q`, `h` (either case)
/// start or stop, toggle the test mode, quit and show help, and the tempo
/// letters follow.
pub open spec fn console_input(line: Seq<char>) -> GeneratorInput {
    let s = trimmed(line);
    if s.len() == 0 {
        GeneratorInput::Blank
    } else if s == seq!['s'] || s == seq!['S'] {
        GeneratorInput::StartStop
    } else if s == seq!['t'] || s == seq!['T'] {
        GeneratorInput::ToggleTestMode
    } else if s == seq!['q'] || s == seq!['Q'] {
        GeneratorInput::Quit
    } else if s == seq!['h'] || s == seq!['H'] {
        GeneratorInput::ShowHelp
    } else {
        tempo_input(s)
    }
}

/// The arrow-key utility's handler: `q`/`quit`/`exit`, `s`/`start`, `+` and
/// `-` for 5 BPM, `++` and `--` for 1 BPM, `status`, `h`/`help`.
pub open spec fn utility_input(s: Seq<char>) -> GeneratorInput {
    if s == seq!['q'] || s == seq!['q', 'u', 'i', 't'] || s == seq!['e', 'x', 'i', 't'] {
        GeneratorInput::Quit
    } else if s == seq!['s'] || s == seq!['s', 't', 'a', 'r', 't'] {
        GeneratorInput::StartStop
    } else if s == seq!['+'] {
        GeneratorInput::RaiseBpm(5)
    } else if s == seq!['-'] {
        GeneratorInput::LowerBpm(5)
    } else if s == seq!['+', '+'] {
        GeneratorInput::RaiseBpm(1)
    } else if s == seq!['-', '-'] {
        GeneratorInput::LowerBpm(1)
    } else if s == seq!['s', 't', 'a', 't', 'u', 's'] {
        GeneratorInput::ShowStatus
    } else if s == seq!['h'] || s == seq!['h', 'e', 'l', 'p'] {
        GeneratorInput::ShowHelp
    } else {
        GeneratorInput::Other
    }
}

/// Whether `s` is one to three copies of `c`.
fn repeated_char(s: &str, c: char) -> (r: bool)
    ensures
        r == repeats(s@, c),
{
    let n = s.unicode_len();
    if n < 1 || n > 3 {
        return false;
    }
    let mut i: usize = 0;
    while i < n
        invariant
            n == s@.len(),
            i <= n,
            forall|j: int| 0 <= j < i ==> s@[j] == c,
        decreases n - i,
    {
        if s.get_char(i) != c {
            return false;
        }
        i = i + 1;
    }
    true
}

/// The tempo step for a line of `n` (one to three) letters.
fn step_for(n: usize) -> (r: u32)
    ensures
        r == repeat_step(n as nat),
{
    if n == 1 {
        1
    } else if n == 2 {
        10
    } else {
        50
    }
}

/// The tempo letters of `s` (see `tempo_input`).
fn tempo_letters(s: &str) -> (r: GeneratorInput)
    ensures
        r == tempo_input(s@),
{
    if repeated_char(s, 'u') {
        GeneratorInput::RaiseBpm(step_for(s.unicode_len()))
    } else if repeated_char(s, 'd') {
        GeneratorInput::LowerBpm(step_for(s.unicode_len()))
    } else {
        GeneratorInput::Other
    }
}

/// Whether `s` is one of the quitting words `q`, `quit`, `exit`.
fn quit_word(s: &str) -> (r: bool)
    ensures
        r == (s@ == seq!['q'] || s@ == seq!['q', 'u', 'i', 't'] || s@ == seq!['e', 'x', 'i', 't']),
{
    proof {
        reveal_strlit("q");
        reveal_strlit("quit");
        reveal_strlit("exit");
    }
    let r = same_text(s, "q") || same_text(s, "quit") || same_text(s, "exit");
    assert("q"@ =~= seq!['q']);
    assert("quit"@ =~= seq!['q', 'u', 'i', 't']);
    assert("exit"@ =~= seq!['e', 'x', 'i', 't']);
    r
}

/// Whether `s` is `s` or `start`.
fn start_word(s: &str) -> (r: bool)
    ensures
        r == (s@ == seq!['s'] || s@ == seq!['s', 't', 'a', 'r', 't']),
{
    proof {
        reveal_strlit("s");
        reveal_strlit("start");
    }
    let r = same_text(s, "s") || same_text(s, "start");
    assert("s"@ =~= seq!['s']);
    assert("start"@ =~= seq!['s', 't', 'a', 'r', 't']);
    r
}

/// Whether `s` is `status`.
fn status_word(s: &str) -> (r: bool)
    ensures
        r == (s@ == seq!['s', 't', 'a', 't', 'u', 's']),
{
    proof {
        reveal_strlit("status");
    }
    let r = same_text(s, "status");
    assert("status"@ =~= seq!['s', 't', 'a', 't', 'u', 's']);
    r
}

/// Whether `s` is `h` or `help`.
fn help_word(s: &str) -> (r: bool)
    ensures
        r == (s@ == seq!['h'] || s@ == seq!['h', 'e', 'l', 'p']),
{
    proof {
        reveal_strlit("h");
        reveal_strlit("help");
    }
    let r = same_text(s, "h") || same_text(s, "help");
    assert("h"@ =~= seq!['h']);
    assert("help"@ =~= seq!['h', 'e', 'l', 'p']);
    r
}

/// Whether `s` is the single character `a` or the single character `b`.
fn one_of(s: &str, a: char, b: char) -> (r: bool)
    ensures
        r == (s@ == seq![a] || s@ == seq![b]),
{
    if s.unicode_len() != 1 {
        assert(s@ != seq![a] && s@ != seq![b]);
        return false;
    }
    let c = s.get_char(0);
    assert(s@ =~= seq![c]);
    c == a || c == b
}

/// Whether `s` is `p` written `n` (one or two) times.
fn plus_minus(s: &str, p: char, n: usize) -> (r: bool)
    requires
        1 <= n <= 2,
    ensures
        r == (s@ == Seq::new(n as nat, |i: int| p)),
{
    if s.unicode_len() != n {
        assert(s@.len() != Seq::new(n as nat, |i: int| p).len());
        return false;
    }
    let first = s.get_char(0);
    if n == 1 {
        assert(first == p ==> s@ =~= Seq::new(n as nat, |i: int| p));
        assert(first != p ==> s@[0] != Seq::new(n as nat, |i: int| p)[0]);
        return first == p;
    }
    let second = s.get_char(1);
    assert(first == p && second == p ==> s@ =~= Seq::new(n as nat, |i: int| p));
    assert(first != p ==> s@[0] != Seq::new(n as nat, |i: int| p)[0]);
    assert(second != p ==> s@[1] != Seq::new(n as nat, |i: int| p)[1]);
    first == p && second == p
}

/// What a command of a test run or of the scripted handler asks:
/// `q`/`quit`/`exit` quit, `s`/`start` start or stop, `status` shows the
/// state, `h`/`help` shows help, `u`/`uu`/`uuu` and `d`/`dd`/`ddd` change the
/// tempo by 1, 10, 50 BPM; anything else is `Other`.
pub fn script_command(command: &str) -> (r: GeneratorInput)
    ensures
        r == script_input(command@),
{
    if quit_word(command) {
        GeneratorInput::Quit
    } else if start_word(command) {
        GeneratorInput::StartStop
    } else if status_word(command) {
        GeneratorInput::ShowStatus
    } else if help_word(command) {
        GeneratorInput::ShowHelp
    } else {
        tempo_letters(command)
    }
}

/// What a line typed at the console asks, once trimmed: nothing
/// (`Blank`), `s`/`S` start or stop, `t`/`T` toggle the test mode, `q`/`Q`
/// quit, `h`/`H` help, and the tempo letters as in `script_command`.
pub fn console_command(line: &str) -> (r: GeneratorInput)
    ensures
        r == console_input(line@),
{
    let s = trim_str(line);
    if s.unicode_len() == 0 {
        GeneratorInput::Blank
    } else if one_of(s, 's', 'S') {
        GeneratorInput::StartStop
    } else if one_of(s, 't', 'T') {
        GeneratorInput::ToggleTestMode
    } else if one_of(s, 'q', 'Q') {
        GeneratorInput::Quit
    } else if one_of(s, 'h', 'H') {
        GeneratorInput::ShowHelp
    } else {
        tempo_letters(s)
    }
}

/// What a command of the arrow-key utility asks: as `script_command` for
/// quitting, starting, status and help, while `+`/`-` change the tempo by 5
/// BPM and `++`/`--` by 1.
pub fn utility_command(command: &str) -> (r: GeneratorInput)
    ensures
        r == utility_input(command@),
{
    if quit_word(command) {
        return GeneratorInput::Quit;
    }
    if start_word(command) {
        return GeneratorInput::StartStop;
    }
    let plus1 = plus_minus(command, '+', 1);
    let minus1 = plus_minus(command, '-', 1);
    let plus2 = plus_minus(command, '+', 2);
    let minus2 = plus_minus(command, '-', 2);
    assert(Seq::new(1, |i: int| '+') =~= seq!['+']);
    assert(Seq::new(1, |i: int| '-') =~= seq!['-']);
    assert(Seq::new(2, |i: int| '+') =~= seq!['+', '+']);
    assert(Seq::new(2, |i: int| '-') =~= seq!['-', '-']);
    if plus1 {
        GeneratorInput::RaiseBpm(5)
    } else if minus1 {
        GeneratorInput::LowerBpm(5)
    } else if plus2 {
        GeneratorInput::RaiseBpm(1)
    } else if minus2 {
        GeneratorInput::LowerBpm(1)
    } else if status_word(command) {
        GeneratorInput::ShowStatus
    } else if help_word(command) {
        GeneratorInput::ShowHelp
    } else {
        GeneratorInput::Other
    }
}

} // verus!
