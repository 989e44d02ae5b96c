//! Self-update: the gates in front of it, its log and the check for a newer
//! version.
use vstd::prelude::*;

use vstd::string::StringExecFns;
use vstd::utf8::{decode_utf8, encode_utf8, is_char_boundary};

use crate::settings::{debug_form, debug_text};
use crate::text::{
    cat, cat3, chars, contains, decimal, lemma_digits_of_decimal, lemma_parsed_chars, lines, next_char, parse_decimal, parsed, same,
    slice_text, str_contains, str_lines, str_take, str_trim, str_words, text_opt, texts, trimmed, words,
};

verus! {

// ── Escape sequences ──

/// Whether a character ends a control sequence: a letter, `~` or `@`.
pub open spec fn ends_csi(c: char) -> bool {
    ('a' <= c && c <= 'z') || ('A' <= c && c <= 'Z') || c == '~' || c == '@'
}

/// Position behind the character that ends the control sequence, from `i` on.
pub open spec fn csi_end(s: Seq<char>, i: int) -> int
    decreases s.len() - i,
{
    if i < 0 || i >= s.len() {
        s.len() as int
    } else if ends_csi(s[i]) {
        i + 1
    } else {
        csi_end(s, i + 1)
    }
}

/// Position behind the bell that ends the operating system command, from `i` on.
pub open spec fn osc_end(s: Seq<char>, i: int) -> int
    decreases s.len() - i,
{
    if i < 0 || i >= s.len() {
        s.len() as int
    } else if s[i] == '\x07' {
        i + 1
    } else {
        osc_end(s, i + 1)
    }
}

/// Position behind the escape sequence at `i`.
pub open spec fn escape_end(s: Seq<char>, i: int) -> int {
    if i + 1 < s.len() && s[i + 1] == '[' {
        csi_end(s, i + 2)
    } else if i + 1 < s.len() && s[i + 1] == ']' {
        osc_end(s, i + 2)
    } else {
        i + 1
    }
}

/// An escape sequence has at least one character and ends within the text.
pub proof fn lemma_escape_end(s: Seq<char>, i: int)
    requires
        0 <= i < s.len(),
    ensures
        i < escape_end(s, i) <= s.len(),
{
    lemma_ends(s, i + 2);
}

proof fn lemma_ends(s: Seq<char>, i: int)
    requires
        0 <= i,
    ensures
        i < s.len() ==> i < csi_end(s, i) <= s.len() && i < osc_end(s, i) <= s.len(),
        i >= s.len() ==> csi_end(s, i) == s.len() && osc_end(s, i) == s.len(),
    decreases s.len() - i,
{
    if i < s.len() {
        lemma_ends(s, i + 1);
    }
}

/// The text from position `i` on without escape sequences.
pub open spec fn stripped_from(s: Seq<char>, i: int) -> Seq<char>
    decreases s.len() - i,
{
    if i < 0 || i >= s.len() {
        Seq::empty()
    } else if s[i] == '\x1b' {
        proof {
            lemma_escape_end(s, i);
        }
        stripped_from(s, escape_end(s, i))
    } else {
        seq![s[i]] + stripped_from(s, i + 1)
    }
}

/// A text without its terminal escape sequences.
pub open spec fn stripped(s: Seq<char>) -> Seq<char> {
    stripped_from(s, 0)
}

fn skip_csi(s: &[char], i: usize) -> (r: usize)
    requires
        i <= s@.len(),
    ensures
        r == csi_end(s@, i as int),
        i <= r <= s@.len(),
{
    let len: usize = s.len();
    let mut k: usize = i;
    while k < len
        invariant
            i <= k <= len == s@.len(),
            csi_end(s@, k as int) == csi_end(s@, i as int),
        decreases len - k,
    {
        let c: char = s[k];
        k += 1;
        if ('a' <= c && c <= 'z') || ('A' <= c && c <= 'Z') || c == '~' || c == '@' {
            return k;
        }
    }
    k
}

fn skip_osc(s: &[char], i: usize) -> (r: usize)
    requires
        i <= s@.len(),
    ensures
        r == osc_end(s@, i as int),
        i <= r <= s@.len(),
{
    let len: usize = s.len();
    let mut k: usize = i;
    while k < len
        invariant
            i <= k <= len == s@.len(),
            osc_end(s@, k as int) == osc_end(s@, i as int),
        decreases len - k,
    {
        let c: char = s[k];
        k += 1;
        if c == '\x07' {
            return k;
        }
    }
    k
}

/// Takes the terminal escape sequences out of a text.
pub fn strip_ansi(s: &str) -> (r: String)
    ensures
        r@ == stripped(s@),
{
    let sc = chars(s);
    let len: usize = sc.len();
    let mut r = String::new();
    let mut i: usize = 0;
    while i < len
        invariant
            i <= len == sc@.len(),
            sc@ == s@,
            r@ + stripped_from(sc@, i as int) =~= stripped(s@),
        decreases len - i,
    {
        proof {
            lemma_escape_end(sc@, i as int);
        }
        if sc[i] == '\x1b' {
            if i + 1 < len && sc[i + 1] == '[' {
                i = skip_csi(sc.as_slice(), i + 2);
            } else if i + 1 < len && sc[i + 1] == ']' {
                i = skip_osc(sc.as_slice(), i + 2);
            } else {
                i += 1;
            }
        } else {
            r.push(sc[i]);
            i += 1;
        }
    }
    r
}

// ── The log ──

/// The number of the marker `[N/4]` at a position, if one stands there.
pub open spec fn mark_at(s: Seq<char>, b: int) -> Option<int> {
    let k = next_char(s, '/', b + 1);
    if s[b] == '[' && k + 2 < s.len() && s[k + 1] == '4' && s[k + 2] == ']' {
        parsed(s.subrange(b + 1, k), 255)
    } else {
        None
    }
}

/// The step of the marker at a position, from 1 to 4, or 0.
pub open spec fn step_at(s: Seq<char>, b: int) -> int {
    match mark_at(s, b) {
        Some(n) => if n <= 4 {
            n
        } else {
            0
        },
        None => 0,
    }
}

/// The higher of two steps.
pub open spec fn higher(a: int, b: int) -> int {
    if a > b {
        a
    } else {
        b
    }
}

/// The highest step that a log marks from a position on, or 0.
pub open spec fn highest_from(s: Seq<char>, from: int) -> int
    decreases s.len() - from,
{
    if from < 0 || from >= s.len() {
        0
    } else {
        higher(step_at(s, from), highest_from(s, from + 1))
    }
}

/// The highest step that a log marks with `[1/4]` to `[4/4]`, or 0.
pub open spec fn highest_step(log: Seq<char>) -> int {
    highest_from(log, 0)
}

proof fn lemma_next_slash(s: Seq<char>, i: int)
    requires
        0 <= i <= s.len(),
    ensures
        i <= next_char(s, '/', i) <= s.len(),
        next_char(s, '/', i) < s.len() ==> s[next_char(s, '/', i)] == '/',
        forall|j: int| i <= j < next_char(s, '/', i) ==> s[j] != '/',
    decreases s.len() - i,
{
    if i < s.len() && s[i] != '/' {
        lemma_next_slash(s, i + 1);
    }
}

proof fn lemma_slash_at(s: Seq<char>, i: int, k: int)
    requires
        0 <= i <= k < s.len(),
        s[k] == '/',
        forall|j: int| i <= j < k ==> s[j] != '/',
    ensures
        next_char(s, '/', i) == k,
    decreases k - i,
{
    if i < k {
        lemma_slash_at(s, i + 1, k);
    }
}

fn read_step(c: &[char], b: usize) -> (n: u8)
    requires
        b < c@.len(),
    ensures
        n == step_at(c@, b as int),
        n <= 4,
{
    if c[b] != '[' {
        return 0;
    }
    let len: usize = c.len();
    let mut k: usize = b + 1;
    while k < len && (('0' <= c[k] && c[k] <= '9') || c[k] == '+')
        invariant
            len == c@.len(),
            b < k <= len,
            forall|j: int| b < j < k ==> c@[j] != '/',
        decreases len - k,
    {
        k += 1;
    }
    proof {
        lemma_next_slash(c@, b + 1);
        let slash = next_char(c@, '/', b + 1);
        if k < len && c@[k as int] == '/' {
            lemma_slash_at(c@, b + 1, k as int);
        } else if k < slash {
            let number = c@.subrange(b + 1, slash);
            assert(number[k - b - 1] == c@[k as int]);
            lemma_parsed_chars(number, 255, k - b - 1);
        }
    }
    if len - k < 3 || c[k] != '/' || c[k + 1] != '4' || c[k + 2] != ']' {
        return 0;
    }
    let number = slice_text(c, b + 1, k);
    match parse_decimal(number.as_str(), 255) {
        Some(n) => {
            if n <= 4 {
                n as u8
            } else {
                0
            }
        },
        None => 0,
    }
}

/// The highest step that the log of an update marks, from 0 to 4.
pub fn parse_update_step(log: &str) -> (step: u8)
    ensures
        step == highest_step(log@),
        step <= 4,
{
    let c = chars(log);
    let len: usize = c.len();
    let mut step: u8 = 0;
    let mut b: usize = 0;
    proof {
        lemma_highest_bounds(log@, 0);
    }
    while b < len
        invariant
            b <= len == c@.len(),
            c@ == log@,
            highest_step(log@) == higher(step as int, highest_from(log@, b as int)),
            step <= 4,
        decreases len - b,
    {
        let n: u8 = read_step(c.as_slice(), b);
        if n > step {
            step = n;
        }
        b += 1;
    }
    step
}

/// The first `k` lines of a log without escape sequences; lines of which
/// nothing is left are passed over.
pub open spec fn shown_lines(all: Seq<Seq<char>>, k: int) -> Seq<Seq<char>>
    decreases k,
{
    if k <= 0 || k > all.len() {
        Seq::empty()
    } else if stripped(all[k - 1]).len() == 0 {
        shown_lines(all, k - 1)
    } else {
        shown_lines(all, k - 1).push(stripped(all[k - 1]))
    }
}

/// The lines of a text as they are shown.
pub open spec fn log_lines(text: Seq<char>) -> Seq<Seq<char>> {
    shown_lines(lines(text), lines(text).len() as int)
}

/// The lines of a log as they are shown.
pub fn clean_lines(text: &str) -> (r: Vec<String>)
    ensures
        texts(r@) == log_lines(text@),
{
    let all = str_lines(text);
    let mut r: Vec<String> = Vec::new();
    let mut k: usize = 0;
    assert(texts(r@) =~= Seq::<Seq<char>>::empty());
    while k < all.len()
        invariant
            k <= all@.len(),
            texts(all@) == lines(text@),
            texts(r@) == shown_lines(lines(text@), k as int),
        decreases all@.len() - k,
    {
        assert(lines(text@)[k as int] == all@[k as int]@);
        let line = strip_ansi(all[k].as_str());
        if !line.as_str().is_empty() {
            let ghost before = texts(r@);
            r.push(line);
            assert(texts(r@) =~= before.push(line@));
        }
        k += 1;
    }
    assert(lines(text@).len() == all@.len());
    r
}

/// Whether a log says that the update is complete.
pub open spec fn says_complete(log: Seq<char>) -> bool {
    contains(log, "MIDInet updated and running"@)
}

/// Whether a log says that the update failed.
pub open spec fn says_failed(log: Seq<char>) -> bool {
    contains(log, "exit 1"@) || contains(log, "Build failed"@) || contains(log, "error[E"@)
}

fn log_complete(log: &str) -> (r: bool)
    ensures
        r == says_complete(log@),
{
    str_contains(log, "MIDInet updated and running")
}

fn log_failed(log: &str) -> (r: bool)
    ensures
        r == says_failed(log@),
{
    str_contains(log, "exit 1") || str_contains(log, "Build failed") || str_contains(log, "error[E")
}

/// How an update is going.
pub struct UpdateStatus {
    pub complete: bool,
    pub failed: bool,
    pub step: u8,
    pub lines: Vec<String>,
}

/// Finds out from its log how an update is going. A log that nobody has
/// written to for a while is of an update that failed.
pub fn update_status(log: &str, stale: bool) -> (r: UpdateStatus)
    ensures
        r.complete == says_complete(log@),
        r.failed == (!r.complete && log@.len() > 0 && (says_failed(log@) || stale)),
        r.step == highest_step(log@),
        texts(r.lines@) == log_lines(log@),
{
    let complete = log_complete(log);
    let failed = !complete && !log.is_empty() && (log_failed(log) || stale);
    UpdateStatus { complete, failed, step: parse_update_step(log), lines: clean_lines(log) }
}

/// Whether the log has not been written to for five minutes.
pub fn is_stale_log(age_secs: Option<u64>) -> (r: bool)
    ensures
        r == (age_secs matches Some(age) && age > 300),
{
    match age_secs {
        Some(age) => age > 300,
        None => false,
    }
}

/// What comes after a look at the log.
#[derive(Clone, Copy, Debug, PartialEq, Eq, Structural)]
pub enum TailOutcome {
    Continue,
    Stale,
    Complete,
    Failed,
}

/// A look at the log of a running update.
pub struct TailStep {
    /// What is to be broadcast.
    pub lines: Vec<String>,
    /// How many bytes of the log have been seen.
    pub pos: usize,
    pub outcome: TailOutcome,
}

/// The part of a text behind its first `pos` bytes.
pub open spec fn text_behind(text: Seq<char>, pos: int) -> Seq<char> {
    let bytes = encode_utf8(text);
    decode_utf8(bytes.subrange(pos, bytes.len() as int))
}

/// What a log says about the end of the update.
pub open spec fn tail_outcome(log: Seq<char>) -> TailOutcome {
    if says_complete(log) {
        TailOutcome::Complete
    } else if says_failed(log) {
        TailOutcome::Failed
    } else {
        TailOutcome::Continue
    }
}

/// What is broadcast at the end of an update.
pub open spec fn end_marker(o: TailOutcome) -> Seq<Seq<char>> {
    match o {
        TailOutcome::Complete => seq!["__UPDATE_COMPLETE__"@],
        TailOutcome::Failed => seq!["__UPDATE_FAILED__"@],
        _ => Seq::empty(),
    }
}

/// Looks at the log of a running update, of which `pos` bytes have been seen.
pub fn tail_update_log(content: &str, pos: usize, stale: bool) -> (r: TailStep)
    requires
        pos < encode_utf8(content@).len() ==> is_char_boundary(
            encode_utf8(content@),
            pos as int,
        ),
    ensures
        if encode_utf8(content@).len() <= pos {
            &&& r.lines@.len() == 0
            &&& r.pos == pos
            &&& r.outcome == if pos > 0 && stale {
                TailOutcome::Stale
            } else {
                TailOutcome::Continue
            }
        } else {
            &&& texts(r.lines@) == log_lines(text_behind(content@, pos as int)) + end_marker(
                tail_outcome(content@),
            )
            &&& r.pos == encode_utf8(content@).len()
            &&& r.outcome == tail_outcome(content@)
        },
{
    let len: usize = content.as_bytes().len();
    if len <= pos {
        let outcome = if pos > 0 && stale {
            TailOutcome::Stale
        } else {
            TailOutcome::Continue
        };
        return TailStep { lines: Vec::new(), pos, outcome };
    }
    let (_, new_text) = content.split_at(pos);
    proof {
        vstd::utf8::encode_utf8_decode_utf8(new_text@);
    }
    let mut list = clean_lines(new_text);
    let ghost shown = texts(list@);
    let outcome = if log_complete(content) {
        list.push("__UPDATE_COMPLETE__".to_owned());
        assert(texts(list@) =~= shown + seq!["__UPDATE_COMPLETE__"@]);
        TailOutcome::Complete
    } else if log_failed(content) {
        list.push("__UPDATE_FAILED__".to_owned());
        assert(texts(list@) =~= shown + seq!["__UPDATE_FAILED__"@]);
        TailOutcome::Failed
    } else {
        assert(shown =~= shown + Seq::<Seq<char>>::empty());
        TailOutcome::Continue
    };
    TailStep { lines: list, pos: len, outcome }
}

// ── The gates ──

/// Whether an update can be started, or why not.
pub fn run_update(script_installed: bool, already_running: bool, path_unit_active: bool) -> (r:
    Result<(), String>)
    ensures
        if !script_installed {
            r matches Err(e) && e@
                == "Update script not installed. Run: sudo install -m 755 <repo>/scripts/pi-update.sh /usr/local/bin/midinet-update"@
        } else if already_running {
            r matches Err(e) && e@ == "An update is already in progress."@
        } else if !path_unit_active {
            r matches Err(e) && e@
                == "Update system not ready. Run 'sudo midinet-update' once from the terminal to install the required systemd units."@
        } else {
            r is Ok
        },
{
    if !script_installed {
        return Err(
            "Update script not installed. Run: sudo install -m 755 <repo>/scripts/pi-update.sh /usr/local/bin/midinet-update".to_owned(),
        );
    }
    if already_running {
        return Err("An update is already in progress.".to_owned());
    }
    if !path_unit_active {
        return Err(
            "Update system not ready. Run 'sudo midinet-update' once from the terminal to install the required systemd units.".to_owned(),
        );
    }
    Ok(())
}

/// The process id that systemd reports; 0 means that the host is not running.
pub fn parse_host_pid(text: &str) -> (r: Option<u32>)
    ensures
        r == match parsed(trimmed(text@), u32::MAX as int) {
            Some(n) => if n > 0 {
                Some(n as u32)
            } else {
                None
            },
            None => None,
        },
{
    let t = str_trim(text);
    match parse_decimal(t.as_str(), u32::MAX as u64) {
        Some(n) => {
            assert(n <= u32::MAX);
            if n > 0 {
                Some(n as u32)
            } else {
                None
            }
        },
        None => None,
    }
}

// ── Newer versions ──

/// A trimmed text, if anything is left of it.
pub open spec fn stamp(text: Option<String>) -> Option<Seq<char>> {
    match text {
        Some(t) => if trimmed(t@).len() > 0 {
            Some(trimmed(t@))
        } else {
            None
        },
        None => None,
    }
}

/// Reads a marker file: its trimmed contents, if anything is left of them.
pub fn read_stamp(text: &Option<String>) -> (r: Option<String>)
    ensures
        match r {
            Some(s) => stamp(*text) == Some(s@),
            None => stamp(*text) is None,
        },
{
    match text {
        Some(t) => {
            let s = str_trim(t.as_str());
            if s.as_str().is_empty() {
                None
            } else {
                Some(s)
            }
        },
        None => None,
    }
}

/// The directory that a marker file names, unless it is shorter than two bytes.
pub fn marker_dir(text: &str) -> (r: Option<String>)
    ensures
        match r {
            Some(d) => d@ == trimmed(text@) && encode_utf8(trimmed(text@)).len() > 1,
            None => encode_utf8(trimmed(text@)).len() <= 1,
        },
{
    let d = str_trim(text);
    if d.as_str().as_bytes().len() > 1 {
        Some(d)
    } else {
        None
    }
}

/// The directories where the sources are looked for.
pub fn source_candidates() -> (r: Vec<String>)
    ensures
        texts(r@) == seq!["/opt/midinet/src"@, "/home/pi/MIDInet"@],
{
    let mut r: Vec<String> = Vec::new();
    r.push("/opt/midinet/src".to_owned());
    r.push("/home/pi/MIDInet".to_owned());
    assert(texts(r@) =~= seq!["/opt/midinet/src"@, "/home/pi/MIDInet"@]);
    r
}

/// A directory that may hold the sources.
#[derive(Debug)]
pub struct Checkout {
    pub path: String,
    /// Whether it holds a repository.
    pub has_git: bool,
}

/// The first of some directories, from one on and before an end, that holds a
/// repository.
pub open spec fn first_checkout(v: Seq<Checkout>, from: int, to: int) -> Option<Seq<char>>
    decreases to - from,
{
    if from < 0 || from >= to || from >= v.len() {
        None
    } else if v[from].has_git {
        Some(v[from].path@)
    } else {
        first_checkout(v, from + 1, to)
    }
}

fn pick_checkout(v: &Vec<Checkout>, limit: usize) -> (r: Option<String>)
    ensures
        text_opt(r) == first_checkout(v@, 0, limit as int),
{
    let mut i: usize = 0;
    while i < limit && i < v.len()
        invariant
            i <= limit,
            i <= v@.len(),
            first_checkout(v@, i as int, limit as int) == first_checkout(v@, 0, limit as int),
        decreases limit - i,
    {
        if v[i].has_git {
            return Some(v[i].path.clone());
        }
        i += 1;
    }
    None
}

/// The directories above the program in which the sources are looked for.
pub const LEVELS_ABOVE: usize = 5;

/// The directory that a readable marker file names.
pub open spec fn marked_dir(marker: Option<String>) -> Option<Seq<char>> {
    match marker {
        Some(text) if encode_utf8(trimmed(text@)).len() > 1 => Some(trimmed(text@)),
        _ => None,
    }
}

/// Where the sources are: where the marker file says, which is trusted, else the
/// first of the usual directories with a repository, else the first such
/// directory above the program.
pub open spec fn source_dir(
    marker: Option<String>,
    usual: Seq<Checkout>,
    above: Seq<Checkout>,
) -> Option<Seq<char>> {
    if marked_dir(marker) is Some {
        marked_dir(marker)
    } else if first_checkout(usual, 0, usual.len() as int) is Some {
        first_checkout(usual, 0, usual.len() as int)
    } else {
        first_checkout(above, 0, LEVELS_ABOVE as int)
    }
}

/// Finds the sources.
pub fn find_src_dir(marker: &Option<String>, usual: &Vec<Checkout>, above: &Vec<Checkout>) -> (r:
    Option<String>)
    ensures
        text_opt(r) == source_dir(*marker, usual@, above@),
{
    match marker {
        Some(text) => {
            let dir = marker_dir(text.as_str());
            if dir.is_some() {
                return dir;
            }
        },
        None => {},
    }
    let len: usize = usual.len();
    let found = pick_checkout(usual, len);
    if found.is_some() {
        return found;
    }
    pick_checkout(above, LEVELS_ABOVE)
}

/// What `git ls-remote` gave.
pub enum RemoteQuery {
    /// It could not be started.
    NotStarted { error: String },
    /// It ended with an error.
    Failed { status: String, stderr: String },
    /// Its output.
    Output { text: String },
}

/// Whether there is a newer version.
pub enum UpdateCheck {
    Unknown { error: String },
    Current { hash: String },
    Available { current: String, latest: String },
}

/// The first seven characters of the first word.
pub open spec fn latest_hash(output: Seq<char>) -> Seq<char> {
    if words(output).len() == 0 {
        Seq::empty()
    } else {
        let w = words(output)[0];
        w.take(
            if w.len() >= 7 {
                7
            } else {
                w.len() as int
            },
        )
    }
}

/// What is said when no hash could be read.
pub open spec fn hash_error(
    current: Seq<char>,
    latest: Seq<char>,
    url: Seq<char>,
    branch: Seq<char>,
) -> Seq<char> {
    "Failed to read git hashes (current="@ + debug_form(current) + ", latest="@ + debug_form(latest)
        + ", url="@ + debug_form(url) + ", branch="@ + debug_form(branch) + ")"@
}

/// The answer to the check for a newer version.
pub open spec fn check_answer(
    current: Seq<char>,
    url: Seq<char>,
    branch: Seq<char>,
    query: RemoteQuery,
    r: UpdateCheck,
) -> bool {
    if url.len() == 0 {
        r matches UpdateCheck::Unknown { error } && error@
            == "Git remote URL not found. Run sudo midinet-update once to set it up."@
    } else {
        match query {
            RemoteQuery::NotStarted { error: e } => r matches UpdateCheck::Unknown { error }
                && error@ == "git ls-remote failed: "@ + e@,
            RemoteQuery::Failed { status, stderr } => r matches UpdateCheck::Unknown { error }
                && error@ == "git ls-remote failed (exit "@ + status@ + "): "@ + trimmed(stderr@),
            RemoteQuery::Output { text } => {
                let latest = latest_hash(text@);
                if current.len() == 0 || latest.len() == 0 {
                    r matches UpdateCheck::Unknown { error } && error@ == hash_error(
                        current,
                        latest,
                        url,
                        branch,
                    )
                } else if current == latest {
                    r matches UpdateCheck::Current { hash } && hash@ == current
                } else {
                    r matches UpdateCheck::Available { current: c, latest: l } && c@ == current
                        && l@ == latest
                }
            },
        }
    }
}

/// Decides whether there is a newer version than `current`.
pub fn git_update_check(current: &str, url: &str, branch: &str, query: &RemoteQuery) -> (r:
    UpdateCheck)
    ensures
        check_answer(current@, url@, branch@, *query, r),
{
    if url.is_empty() {
        return UpdateCheck::Unknown {
            error: "Git remote URL not found. Run sudo midinet-update once to set it up.".to_owned(),
        };
    }
    match query {
        RemoteQuery::NotStarted { error } => UpdateCheck::Unknown {
            error: cat("git ls-remote failed: ", error.as_str()),
        },
        RemoteQuery::Failed { status, stderr } => {
            let why = str_trim(stderr.as_str());
            let mut error = cat3("git ls-remote failed (exit ", status.as_str(), "): ");
            error.append(why.as_str());
            UpdateCheck::Unknown { error }
        },
        RemoteQuery::Output { text } => {
            let list = str_words(text.as_str());
            assert(words(text@).len() == list@.len());
            let latest: String = if list.len() == 0 {
                String::new()
            } else {
                assert(words(text@)[0] == list@[0]@);
                str_take(list[0].as_str(), 7)
            };
            if current.is_empty() || latest.as_str().is_empty() {
                let c = debug_text(current);
                let l = debug_text(latest.as_str());
                let u = debug_text(url);
                let b = debug_text(branch);
                let mut error = cat3("Failed to read git hashes (current=", c.as_str(), ", latest=");
                error.append(l.as_str());
                error.append(", url=");
                error.append(u.as_str());
                error.append(", branch=");
                error.append(b.as_str());
                error.append(")");
                return UpdateCheck::Unknown { error };
            }
            if same(current, latest.as_str()) {
                UpdateCheck::Current { hash: latest }
            } else {
                UpdateCheck::Available { current: current.to_owned(), latest }
            }
        },
    }
}

// ── Laws ──

proof fn lemma_stripped_no_escape(s: Seq<char>, i: int, k: int)
    requires
        0 <= i,
        0 <= k < stripped_from(s, i).len(),
    ensures
        stripped_from(s, i)[k] != '\x1b',
    decreases s.len() - i,
{
    if i < s.len() {
        lemma_escape_end(s, i);
        if s[i] == '\x1b' {
            lemma_stripped_no_escape(s, escape_end(s, i), k);
        } else if k > 0 {
            lemma_stripped_no_escape(s, i + 1, k - 1);
        }
    }
}

proof fn lemma_stripped_plain(s: Seq<char>, i: int)
    requires
        0 <= i <= s.len(),
        forall|k: int| 0 <= k < s.len() ==> s[k] != '\x1b',
    ensures
        stripped_from(s, i) == s.skip(i),
    decreases s.len() - i,
{
    if i < s.len() {
        lemma_stripped_plain(s, i + 1);
        assert(s.skip(i) =~= seq![s[i]] + s.skip(i + 1));
    } else {
        assert(s.skip(i) =~= Seq::<char>::empty());
    }
}

/// A stripped text holds no escape character.
pub proof fn law_stripped_has_no_escape(s: Seq<char>)
    ensures
        !stripped(s).contains('\x1b'),
{
    if stripped(s).contains('\x1b') {
        let k = stripped(s).index_of('\x1b');
        lemma_stripped_no_escape(s, 0, k);
    }
}

/// Stripping changes no text that has no escape character, so stripping twice
/// is stripping once.
pub proof fn law_strip_idempotent(s: Seq<char>)
    ensures
        !s.contains('\x1b') ==> stripped(s) == s,
        stripped(stripped(s)) == stripped(s),
{
    if !s.contains('\x1b') {
        lemma_stripped_plain(s, 0);
        assert(s.skip(0) =~= s);
    }
    law_stripped_has_no_escape(s);
    let t = stripped(s);
    lemma_stripped_plain(t, 0);
    assert(t.skip(0) =~= t);
}

/// The positions from `i` on of the characters that stripping keeps.
pub open spec fn kept_from(s: Seq<char>, i: int) -> Seq<int>
    decreases s.len() - i,
{
    if i < 0 || i >= s.len() {
        Seq::empty()
    } else if s[i] == '\x1b' {
        proof {
            lemma_escape_end(s, i);
        }
        kept_from(s, escape_end(s, i))
    } else {
        seq![i] + kept_from(s, i + 1)
    }
}

proof fn lemma_kept(s: Seq<char>, i: int)
    requires
        0 <= i,
    ensures
        kept_from(s, i).len() == stripped_from(s, i).len(),
        forall|k: int|
            0 <= k < kept_from(s, i).len() ==> i <= #[trigger] kept_from(s, i)[k] < s.len()
                && s[kept_from(s, i)[k]] == stripped_from(s, i)[k],
        forall|j: int, k: int|
            0 <= j < k < kept_from(s, i).len() ==> kept_from(s, i)[j] < kept_from(s, i)[k],
    decreases s.len() - i,
{
    if i < s.len() {
        lemma_escape_end(s, i);
        if s[i] == '\x1b' {
            lemma_kept(s, escape_end(s, i));
        } else {
            lemma_kept(s, i + 1);
            let rest = kept_from(s, i + 1);
            let all = kept_from(s, i);
            assert(all =~= seq![i] + rest);
            assert forall|k: int| 0 <= k < all.len() implies i <= #[trigger] all[k] < s.len()
                && s[all[k]] == stripped_from(s, i)[k] by {
                if k > 0 {
                    assert(all[k] == rest[k - 1]);
                }
            }
            assert forall|j: int, k: int| 0 <= j < k < all.len() implies all[j] < all[k] by {
                assert(all[k] == rest[k - 1]);
                if j > 0 {
                    assert(all[j] == rest[j - 1]);
                }
            }
        }
    }
}

/// Stripping only takes characters out: what is left stands in the text in the
/// same order, at the positions that are kept.
pub proof fn law_stripped_is_subsequence(s: Seq<char>)
    ensures
        kept_from(s, 0).len() == stripped(s).len(),
        forall|k: int|
            0 <= k < stripped(s).len() ==> 0 <= #[trigger] kept_from(s, 0)[k] < s.len()
                && s[kept_from(s, 0)[k]] == stripped(s)[k],
        forall|j: int, k: int|
            0 <= j < k < stripped(s).len() ==> kept_from(s, 0)[j] < kept_from(s, 0)[k],
{
    lemma_kept(s, 0);
}

proof fn lemma_highest_bounds(s: Seq<char>, from: int)
    ensures
        0 <= highest_from(s, from) <= 4,
    decreases s.len() - from,
{
    if 0 <= from < s.len() {
        lemma_highest_bounds(s, from + 1);
    }
}

proof fn lemma_highest_behind(a: Seq<char>, b: Seq<char>, i: int)
    requires
        0 <= i <= b.len(),
    ensures
        highest_from(a + b, a.len() + i) == highest_from(b, i),
    decreases b.len() - i,
{
    let s = a + b;
    let n = a.len() as int;
    if i < b.len() {
        lemma_highest_behind(a, b, i + 1);
        lemma_next_slash(b, i + 1);
        lemma_next_slash(s, n + i + 1);
        let k = next_char(b, '/', i + 1);
        let m = next_char(s, '/', n + i + 1);
        if k < b.len() {
            assert(s[n + k] == '/');
            assert forall|j: int| n + i + 1 <= j < n + k implies s[j] != '/' by {
                assert(s[j] == b[j - n]);
            }
            lemma_slash_at(s, n + i + 1, n + k);
            assert(s.subrange(n + i + 1, m) =~= b.subrange(i + 1, k));
        } else if m < s.len() {
            assert(b[m - n] == '/');
        }
        assert(mark_at(s, n + i) == mark_at(b, i));
    }
}

proof fn lemma_mark_before(a: Seq<char>, b: Seq<char>, i: int)
    requires
        0 <= i < a.len(),
    ensures
        mark_at(a + seq!['\n'] + b, i) == mark_at(a, i),
{
    let s = a + seq!['\n'] + b;
    lemma_next_slash(a, i + 1);
    lemma_next_slash(s, i + 1);
    let k = next_char(a, '/', i + 1);
    let m = next_char(s, '/', i + 1);
    if k < a.len() {
        assert(s[k] == '/');
        assert forall|j: int| i + 1 <= j < k implies s[j] != '/' by {
            assert(s[j] == a[j]);
        }
        lemma_slash_at(s, i + 1, k);
        assert(s.subrange(i + 1, k) =~= a.subrange(i + 1, k));
        assert(s[a.len() as int] == '\n');
    } else if m < s.len() {
        assert(m > a.len()) by {
            if m < a.len() {
                assert(a[m] == '/');
            }
            assert(s[a.len() as int] == '\n');
        }
        let number = s.subrange(i + 1, m);
        assert(number[a.len() - i - 1] == '\n');
        lemma_parsed_chars(number, 255, a.len() - i - 1);
    }
}

proof fn lemma_highest_joined(a: Seq<char>, b: Seq<char>, i: int)
    requires
        0 <= i <= a.len(),
    ensures
        highest_from(a + seq!['\n'] + b, i) == higher(highest_from(a, i), highest_step(b)),
    decreases a.len() - i,
{
    let front = a + seq!['\n'];
    let s = front + b;
    lemma_highest_bounds(b, 0);
    if i < a.len() {
        lemma_highest_joined(a, b, i + 1);
        lemma_mark_before(a, b, i);
    } else {
        assert(s[i] == '\n');
        lemma_highest_behind(front, b, 0);
        assert(highest_from(s, i) == higher(step_at(s, i), highest_from(s, i + 1)));
    }
}

/// Two logs that are joined by a line break mark the higher of their two steps;
/// an empty log marks none, and no log more than the fourth.
pub proof fn law_steps_of_joined_logs(a: Seq<char>, b: Seq<char>)
    ensures
        highest_step(a + seq!['\n'] + b) == higher(highest_step(a), highest_step(b)),
        0 <= highest_step(a) <= 4,
        highest_step(Seq::empty()) == 0,
{
    lemma_highest_joined(a, b, 0);
    lemma_highest_bounds(a, 0);
}

proof fn lemma_ends_shift(a: Seq<char>, b: Seq<char>, i: int)
    requires
        0 <= i,
    ensures
        csi_end(a + b, a.len() + i) == a.len() + csi_end(b, i),
        osc_end(a + b, a.len() + i) == a.len() + osc_end(b, i),
    decreases b.len() - i,
{
    if i < b.len() {
        assert((a + b)[a.len() + i] == b[i]);
        lemma_ends_shift(a, b, i + 1);
    }
}

proof fn lemma_stripped_shift(a: Seq<char>, b: Seq<char>, i: int)
    requires
        0 <= i,
    ensures
        stripped_from(a + b, a.len() + i) == stripped_from(b, i),
    decreases b.len() - i,
{
    let s = a + b;
    if i < b.len() {
        let j = a.len() + i;
        assert(s[j] == b[i]);
        if b[i] == '\x1b' {
            if i + 1 < b.len() {
                assert(s[j + 1] == b[i + 1]);
            }
            lemma_ends_shift(a, b, i + 2);
            assert(escape_end(s, j) == a.len() + escape_end(b, i));
            lemma_escape_end(b, i);
            lemma_escape_end(s, j);
            lemma_stripped_shift(a, b, escape_end(b, i));
        } else {
            lemma_stripped_shift(a, b, i + 1);
        }
    }
}

proof fn lemma_csi(s: Seq<char>, i: int, end: int)
    requires
        0 <= i <= end < s.len(),
        ends_csi(s[end]),
        forall|j: int| i <= j < end ==> !ends_csi(#[trigger] s[j]),
    ensures
        csi_end(s, i) == end + 1,
    decreases end - i,
{
    if i < end {
        assert(!ends_csi(s[i]));
        lemma_csi(s, i + 1, end);
    }
}

proof fn lemma_osc(s: Seq<char>, i: int, end: int)
    requires
        0 <= i <= end < s.len(),
        s[end] == '\x07',
        forall|j: int| i <= j < end ==> #[trigger] s[j] != '\x07',
    ensures
        osc_end(s, i) == end + 1,
    decreases end - i,
{
    if i < end {
        assert(s[i] != '\x07');
        lemma_osc(s, i + 1, end);
    }
}

/// What stripping does at the front of a text: a character that is no escape stays, and of
/// an escape sequence nothing does: one with a bracket ends with a letter, `~` or `@`, one
/// with a closing bracket with a bell, and any other is the escape character alone.
pub proof fn law_stripped_front(
    front: Seq<char>,
    rest: &str,
    all: &str,
    r: String,
    q: String,
)
    requires
        call_ensures(strip_ansi, (all,), r),
        call_ensures(strip_ansi, (rest,), q),
        all@ == front + rest@,
        front.len() > 0,
    ensures
        front.len() == 1 && front[0] != '\x1b' ==> r@ == front + q@,
        front.len() == 1 && front[0] == '\x1b' && (rest@.len() == 0 || rest@[0] != '[' && rest@[0]
            != ']') ==> r@ == q@,
        front.len() >= 3 && front[0] == '\x1b' && front[1] == '[' && ends_csi(front.last()) && (
        forall|j: int| 2 <= j < front.len() - 1 ==> !ends_csi(#[trigger] front[j])) ==> r@ == q@,
        front.len() >= 3 && front[0] == '\x1b' && front[1] == ']' && front.last() == '\x07' && (
        forall|j: int| 2 <= j < front.len() - 1 ==> #[trigger] front[j] != '\x07') ==> r@ == q@,
{
    let s = front + rest@;
    let n = front.len() as int;
    lemma_stripped_shift(front, rest@, 0);
    assert(s[0] == front[0]);
    lemma_escape_end(s, 0);
    if n == 1 {
        if rest@.len() > 0 {
            assert(s[1] == rest@[0]);
        }
        assert(front =~= seq![s[0]]);
    } else if n >= 3 {
        assert(s[1] == front[1]);
        assert(s[n - 1] == front.last());
        if front[1] == '[' && ends_csi(front.last()) && (forall|j: int|
            2 <= j < front.len() - 1 ==> !ends_csi(#[trigger] front[j])) {
            assert forall|j: int| 2 <= j < n - 1 implies !ends_csi(#[trigger] s[j]) by {
                assert(s[j] == front[j]);
            }
            lemma_csi(s, 2, n - 1);
        }
        if front[1] == ']' && front.last() == '\x07' && (forall|j: int|
            2 <= j < front.len() - 1 ==> #[trigger] front[j] != '\x07') {
            assert forall|j: int| 2 <= j < n - 1 implies #[trigger] s[j] != '\x07' by {
                assert(s[j] == front[j]);
            }
            lemma_osc(s, 2, n - 1);
        }
    }
}

/// Which characters end a control sequence.
pub proof fn law_end_of_a_sequence(c: char)
    ensures
        ends_csi(c) <==> 'a' <= c <= 'z' || 'A' <= c <= 'Z' || c == '~' || c == '@',
{
}

proof fn lemma_highest_at(s: Seq<char>, from: int, b: int)
    requires
        0 <= from,
    ensures
        from <= b < s.len() ==> highest_from(s, from) >= step_at(s, b),
        highest_from(s, from) >= 0,
        highest_from(s, from) > 0 ==> exists|k: int|
            from <= k < s.len() && #[trigger] step_at(s, k) == highest_from(s, from),
    decreases s.len() - from,
{
    if from < s.len() {
        lemma_highest_at(s, from + 1, b);
        if highest_from(s, from) > 0 && highest_from(s, from) == highest_from(s, from + 1) {
            let k = choose|k: int|
                from + 1 <= k < s.len() && #[trigger] step_at(s, k) == highest_from(s, from + 1);
            assert(step_at(s, k) == highest_from(s, from));
        } else if highest_from(s, from) > 0 {
            assert(step_at(s, from) == highest_from(s, from));
        }
    }
}

/// The step of a log is the highest number up to four that it marks as a step of four,
/// wherever the mark stands; a log without such a mark is at none.
pub proof fn law_marked_step(log: &str, step: u8, front: Seq<char>, n: nat, rest: Seq<char>)
    requires
        call_ensures(parse_update_step, (log,), step),
    ensures
        n <= 4 && log@ == front + seq!['['] + decimal(n) + seq!['/', '4', ']'] + rest ==> step >= n,
        step > 0 ==> exists|b: int, k: int|
            0 <= b < k < log@.len() - 2 && #[trigger] log@[b] == '[' && #[trigger] log@[k] == '/'
                && log@[k + 1] == '4' && log@[k + 2] == ']' && parsed(
                log@.subrange(b + 1, k),
                255,
            ) == Some(step as int),
        step <= 4,
{
    let s = log@;
    if n <= 4 && s == front + seq!['['] + decimal(n) + seq!['/', '4', ']'] + rest {
        let b = front.len() as int;
        lemma_digits_of_decimal(n);
        let d = decimal(n);
        let k = b + 1 + d.len();
        assert(s[b] == '[');
        assert(s[k] == '/' && s[k + 1] == '4' && s[k + 2] == ']');
        assert forall|j: int| b + 1 <= j < k implies s[j] != '/' by {
            assert(s[j] == d[j - b - 1]);
        }
        lemma_slash_at(s, b + 1, k);
        assert(s.subrange(b + 1, k) =~= d);
        assert(d.skip(0) =~= d);
        assert(mark_at(s, b) == Some(n as int));
        lemma_highest_at(s, 0, b);
    }
    lemma_highest_at(s, 0, 0);
    if step > 0 {
        let b = choose|b: int| 0 <= b < s.len() && #[trigger] step_at(s, b) == highest_from(s, 0);
        lemma_next_slash(s, b + 1);
        let k = next_char(s, '/', b + 1);
        assert(s[b] == '[' && s[k] == '/');
    }
}

/// A log of two parts with a line break between them is as far as the part that is
/// farther.
pub proof fn law_step_of_joined_logs(
    a: &str,
    b: &str,
    log: &str,
    x: u8,
    y: u8,
    step: u8,
)
    requires
        call_ensures(parse_update_step, (a,), x),
        call_ensures(parse_update_step, (b,), y),
        call_ensures(parse_update_step, (log,), step),
        log@ == a@ + seq!['\n'] + b@,
    ensures
        step >= x && step >= y && (step == x || step == y),
        a@.len() == 0 ==> x == 0,
{
    law_steps_of_joined_logs(a@, b@);
    if a@.len() == 0 {
        assert(a@ =~= Seq::<char>::empty());
    }
}

proof fn lemma_shown(all: Seq<Seq<char>>, k: int, line: Seq<char>)
    requires
        0 <= k <= all.len(),
    ensures
        shown_lines(seq![line] + all, k + 1) == (if stripped(line).len() == 0 {
            Seq::empty()
        } else {
            seq![stripped(line)]
        }) + shown_lines(all, k),
    decreases k,
{
    let more = seq![line] + all;
    let first = if stripped(line).len() == 0 {
        Seq::empty()
    } else {
        seq![stripped(line)]
    };
    assert(more[0] == line);
    if k == 0 {
        assert(shown_lines(more, 0) =~= Seq::<Seq<char>>::empty());
        assert(shown_lines(more, 1) =~= first);
        assert(first + shown_lines(all, 0) =~= first);
    } else {
        lemma_shown(all, k - 1, line);
        assert(more[k] == all[k - 1]);
        assert(shown_lines(more, k + 1) =~= first + shown_lines(all, k));
    }
}

/// The lines of a log that are shown: each line without its escape sequences, in order,
/// and none of which nothing is left.
pub proof fn law_shown_lines(
    line: &str,
    rest: &str,
    log: &str,
    all: Vec<String>,
    r: Vec<String>,
    tail: Vec<String>,
    q: Vec<String>,
    shown: String,
)
    requires
        call_ensures(str_lines, (log,), all),
        call_ensures(str_lines, (rest,), tail),
        texts(all@) == seq![line@] + texts(tail@),
        call_ensures(clean_lines, (log,), r),
        call_ensures(clean_lines, (rest,), q),
        call_ensures(strip_ansi, (line,), shown),
    ensures
        shown@.len() > 0 ==> texts(r@) == seq![shown@] + texts(q@),
        shown@.len() == 0 ==> texts(r@) == texts(q@),
        tail@.len() == 0 ==> q@.len() == 0,
{
    let t = texts(tail@);
    lemma_shown(t, t.len() as int, line@);
    assert((seq![line@] + t).len() == t.len() + 1);
    assert(texts(q@).len() == q@.len());
    assert(t.len() == tail@.len());
    assert(Seq::<Seq<char>>::empty() + texts(q@) =~= texts(q@));
}

/// How an update is going: its log says that it is complete or that it failed, an update
/// whose log is old has failed too, and one that is complete has not failed.
pub proof fn law_update_status(
    log: &str,
    stale: bool,
    r: UpdateStatus,
    step: u8,
    lines: Vec<String>,
)
    requires
        call_ensures(update_status, (log, stale), r),
        call_ensures(parse_update_step, (log,), step),
        call_ensures(clean_lines, (log,), lines),
    ensures
        r.complete <==> contains(log@, "MIDInet updated and running"@),
        r.failed <==> !r.complete && log@.len() > 0 && (stale || contains(log@, "exit 1"@)
            || contains(log@, "Build failed"@) || contains(log@, "error[E"@)),
        r.step == step,
        texts(r.lines@) == texts(lines@),
{
}

/// A log is old when it has not been written to for more than five minutes.
pub proof fn law_old_log(age_secs: Option<u64>, r: bool)
    requires
        call_ensures(is_stale_log, (age_secs,), r),
    ensures
        age_secs is None ==> !r,
        age_secs matches Some(age) ==> (r <==> age > 5 * 60),
{
}

/// A look at the log of a running update: where nothing is new the position stays and only
/// an old log ends it; what is new is shown to its end, with a mark behind it when the log
/// says that the update is over.
pub proof fn law_look_at_the_log(
    content: &str,
    pos: usize,
    stale: bool,
    r: TailStep,
    new: &str,
    lines: Vec<String>,
)
    requires
        call_ensures(tail_update_log, (content, pos, stale), r),
        pos < encode_utf8(content@).len() ==> is_char_boundary(encode_utf8(content@), pos as int),
        pos < encode_utf8(content@).len() ==> new@ == decode_utf8(
            encode_utf8(content@).skip(pos as int),
        ),
        call_ensures(clean_lines, (new,), lines),
    ensures
        ({
            let size = encode_utf8(content@).len();
            let complete = contains(content@, "MIDInet updated and running"@);
            let failed = contains(content@, "exit 1"@) || contains(content@, "Build failed"@)
                || contains(content@, "error[E"@);
            &&& size <= pos ==> r.lines@.len() == 0 && r.pos == pos
            &&& size <= pos ==> (r.outcome is Stale <==> pos > 0 && stale)
            &&& size <= pos ==> r.outcome is Stale || r.outcome is Continue
            &&& size > pos ==> r.pos == size
            &&& size > pos ==> (r.outcome is Complete <==> complete)
            &&& size > pos ==> (r.outcome is Failed <==> !complete && failed)
            &&& size > pos ==> !(r.outcome is Stale)
            &&& size > pos && complete ==> texts(r.lines@) == texts(lines@).push(
                "__UPDATE_COMPLETE__"@,
            )
            &&& size > pos && !complete && failed ==> texts(r.lines@) == texts(lines@).push(
                "__UPDATE_FAILED__"@,
            )
            &&& size > pos && !complete && !failed ==> texts(r.lines@) == texts(lines@)
        }),
{
    let bytes = encode_utf8(content@);
    if pos < bytes.len() {
        assert(bytes.skip(pos as int) =~= bytes.subrange(pos as int, bytes.len() as int));
        let shown = texts(lines@);
        assert(shown + seq!["__UPDATE_COMPLETE__"@] =~= shown.push("__UPDATE_COMPLETE__"@));
        assert(shown + seq!["__UPDATE_FAILED__"@] =~= shown.push("__UPDATE_FAILED__"@));
        assert(shown + Seq::<Seq<char>>::empty() =~= shown);
    }
}

/// An update starts only where its script is installed, no other one is running and the
/// system is ready for it.
pub proof fn law_update_starts(
    script_installed: bool,
    already_running: bool,
    path_unit_active: bool,
    r: Result<(), String>,
)
    requires
        call_ensures(run_update, (script_installed, already_running, path_unit_active), r),
    ensures
        r is Ok <==> script_installed && !already_running && path_unit_active,
        !script_installed ==> (r matches Err(e) && e@
            == "Update script not installed. Run: sudo install -m 755 <repo>/scripts/pi-update.sh /usr/local/bin/midinet-update"@),
        script_installed && already_running ==> (r matches Err(e) && e@
            == "An update is already in progress."@),
        script_installed && !already_running && !path_unit_active ==> (r matches Err(e) && e@
            == "Update system not ready. Run 'sudo midinet-update' once from the terminal to install the required systemd units."@),
{
}

/// The process of the host is the number that the text holds, and there is none where it
/// is zero or the text holds no number.
pub proof fn law_host_process(text: &str, r: Option<u32>, n: u32)
    requires
        call_ensures(parse_host_pid, (text,), r),
    ensures
        trimmed(text@) == decimal(n as nat) && n > 0 ==> r == Some(n),
        trimmed(text@) == decimal(0) ==> r is None,
        trimmed(text@).len() == 0 ==> r is None,
        r matches Some(p) ==> p > 0,
{
    lemma_digits_of_decimal(n as nat);
    lemma_digits_of_decimal(0);
    assert(decimal(n as nat).skip(0) =~= decimal(n as nat));
    assert(decimal(0).skip(0) =~= decimal(0));
}

/// What marker files say: their trimmed contents, if anything is left; of a directory, more
/// than one byte.
pub proof fn law_marker_files(
    text: Option<String>,
    r: Option<String>,
    dir: &str,
    d: Option<String>,
)
    requires
        call_ensures(read_stamp, (&text,), r),
        call_ensures(marker_dir, (dir,), d),
    ensures
        text is None ==> r is None,
        text matches Some(t) ==> (r is Some <==> trimmed(t@).len() > 0),
        text matches Some(t) ==> (r matches Some(s) ==> s@ == trimmed(t@)),
        d is Some <==> encode_utf8(trimmed(dir@)).len() >= 2,
        d matches Some(s) ==> s@ == trimmed(dir@),
{
}

proof fn lemma_checkout(v: Seq<Checkout>, from: int, to: int, i: int)
    requires
        0 <= from,
    ensures
        from <= i < to && i < v.len() && v[i].has_git && (forall|j: int|
            from <= j < i ==> !(#[trigger] v[j]).has_git) ==> first_checkout(v, from, to) == Some(
            v[i].path@,
        ),
        (forall|j: int| from <= j < to && j < v.len() ==> !(#[trigger] v[j]).has_git)
            ==> first_checkout(v, from, to) is None,
    decreases to - from,
{
    if from < to && from < v.len() {
        if !v[from].has_git {
            lemma_checkout(v, from + 1, to, i);
        }
    }
}

/// Where the sources are: where the marker says; else in the first usual directory with a
/// repository; else in the first such one of the five above the program; else nowhere.
pub proof fn law_sources(
    marker: Option<String>,
    usual: Vec<Checkout>,
    above: Vec<Checkout>,
    r: Option<String>,
    i: int,
)
    requires
        call_ensures(find_src_dir, (&marker, &usual, &above), r),
    ensures
        ({
            let marked = marker matches Some(t) && encode_utf8(trimmed(t@)).len() > 1;
            let no_usual = forall|j: int|
                0 <= j < usual@.len() ==> !(#[trigger] usual@[j]).has_git;
            &&& marked ==> (r matches Some(d) && d@ == trimmed(marker->0@))
            &&& !marked && 0 <= i < usual@.len() && usual@[i].has_git && (forall|j: int|
                0 <= j < i ==> !(#[trigger] usual@[j]).has_git) ==> (r matches Some(d) && d@
                == usual@[i].path@)
            &&& !marked && no_usual && 0 <= i < 5 && i < above@.len() && above@[i].has_git && (
            forall|j: int| 0 <= j < i ==> !(#[trigger] above@[j]).has_git) ==> (r matches Some(d)
                && d@ == above@[i].path@)
            &&& !marked && no_usual && (forall|j: int|
                0 <= j < 5 && j < above@.len() ==> !(#[trigger] above@[j]).has_git) ==> r is None
        }),
{
    lemma_checkout(usual@, 0, usual@.len() as int, i);
    lemma_checkout(above@, 0, 5, i);
}

/// The usual directories of the sources.
pub proof fn law_usual_directories(r: Vec<String>)
    requires
        call_ensures(source_candidates, (), r),
    ensures
        r@.len() == 2,
        r@[0]@ == "/opt/midinet/src"@,
        r@[1]@ == "/home/pi/MIDInet"@,
{
    assert(texts(r@).len() == r@.len());
    assert(texts(r@)[0] == r@[0]@ && texts(r@)[1] == r@[1]@);
}

/// Whether there is a newer version: the first seven characters of the first word that the
/// remote gave, where they are not those of the version that is there. Where either is
/// not known, so is the answer.
pub proof fn law_newer_version(
    current: &str,
    url: &str,
    branch: &str,
    query: RemoteQuery,
    r: UpdateCheck,
    text: &str,
    all: Vec<String>,
)
    requires
        call_ensures(git_update_check, (current, url, branch, &query), r),
        call_ensures(str_words, (text,), all),
        query matches RemoteQuery::Output { text: t } && t@ == text@,
        url@.len() > 0,
    ensures
        all@.len() == 0 || current@.len() == 0 ==> r is Unknown,
        all@.len() > 0 && current@.len() > 0 && all@[0]@.len() >= 7 ==> {
            let latest = all@[0]@.take(7);
            &&& r is Current <==> current@ == latest
            &&& r is Available <==> current@ != latest
            &&& r matches UpdateCheck::Current { hash } ==> hash@ == current@
            &&& r matches UpdateCheck::Available { current: c, latest: l } ==> c@ == current@ && l@
                == latest
        },
{
    let w = words(text@);
    assert(texts(all@).len() == all@.len());
    if all@.len() > 0 {
        assert(texts(all@)[0] == all@[0]@);
    }
}

/// Without an answer of the remote nothing is known, and what failed is said.
pub proof fn law_no_answer(
    current: &str,
    url: &str,
    branch: &str,
    query: RemoteQuery,
    r: UpdateCheck,
)
    requires
        call_ensures(git_update_check, (current, url, branch, &query), r),
    ensures
        url@.len() == 0 ==> (r matches UpdateCheck::Unknown { error } && error@
            == "Git remote URL not found. Run sudo midinet-update once to set it up."@),
        url@.len() > 0 ==> (query matches RemoteQuery::NotStarted { error: e } ==> (
        r matches UpdateCheck::Unknown { error } && error@ == "git ls-remote failed: "@ + e@)),
        url@.len() > 0 ==> (query matches RemoteQuery::Failed { status, stderr } ==> (
        r matches UpdateCheck::Unknown { error } && error@ == "git ls-remote failed (exit "@
            + status@ + "): "@ + trimmed(stderr@))),
{
}

} // verus!
