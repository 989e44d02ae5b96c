//! The command-line tool's edits of the files of the host: the static fallback
//! address and the hostname.
use vstd::prelude::*;

use crate::text::{
    cat, cat3, chars, contains, decimal, find, find_chars, first_at, is_space, joined,
    lemma_digits_of_decimal, lemma_find, lemma_find_first, lemma_joined_first,
    lemma_short_decimal, lemma_split_first, lemma_split_from, lemma_trimmed,
    lemma_without_slashes, lines, lines_from, next_char, occurs_at, same, slice_text, split,
    split_from, str_contains, str_join, str_lines, str_skip, str_split, str_starts_with,
    str_trim, str_without_slashes, str_words, text_opt, texts, trimmed, without_cr,
    without_slashes, words,
};

verus! {

// ── The address of the admin panel ──

/// The address without the slashes at its end, so that paths can be added.
pub fn base_url(url: &str) -> (r: String)
    ensures
        r@ == without_slashes(url@),
{
    str_without_slashes(url)
}

// ── Who runs the command ──

/// Whether the printed user number is that of the superuser.
pub fn ensure_root(user_id: &Option<String>) -> (r: Result<(), String>)
    ensures
        match r {
            Ok(_) => user_id is Some && trimmed(user_id->0@) == "0"@,
            Err(e) => !(user_id is Some && trimmed(user_id->0@) == "0"@) && e@
                == "This command requires root privileges. Run with: sudo midinet network ..."@,
        },
{
    let is_root = match user_id {
        Some(s) => {
            let t = str_trim(s.as_str());
            same(t.as_str(), "0")
        },
        None => false,
    };
    if is_root {
        Ok(())
    } else {
        Err("This command requires root privileges. Run with: sudo midinet network ...".to_owned())
    }
}

/// The interface of the default route: the fifth word of what the system prints
/// about it, or `eth0`.
pub fn detect_interface(route: &Option<String>) -> (r: String)
    ensures
        r@ == match *route {
            Some(s) if words(s@).len() > 4 => words(s@)[4],
            _ => "eth0"@,
        },
{
    match route {
        Some(s) => {
            let w = str_words(s.as_str());
            if w.len() > 4 {
                assert(texts(w@)[4] == w@[4]@);
                w[4].clone()
            } else {
                "eth0".to_owned()
            }
        },
        None => "eth0".to_owned(),
    }
}

// ── IPv4 addresses ──

/// Whether a character is a decimal digit.
pub open spec fn is_digit(c: char) -> bool {
    '0' <= c && c <= '9'
}

/// The value of a decimal digit.
pub open spec fn digit_of(c: char) -> int {
    c as u32 - 48
}

/// Whether a text is a number up to 255 without a needless zero in front.
pub open spec fn is_octet(s: Seq<char>) -> bool {
    ||| s.len() == 1 && is_digit(s[0])
    ||| s.len() == 2 && is_digit(s[0]) && is_digit(s[1]) && s[0] != '0'
    ||| s.len() == 3 && is_digit(s[0]) && is_digit(s[1]) && is_digit(s[2]) && s[0] != '0' && 100
        * digit_of(s[0]) + 10 * digit_of(s[1]) + digit_of(s[2]) <= 255
}

/// Whether a text is an IPv4 address: four numbers up to 255 with dots between.
pub open spec fn is_ipv4(s: Seq<char>) -> bool {
    let parts = split(s, '.');
    parts.len() == 4 && is_octet(parts[0]) && is_octet(parts[1]) && is_octet(parts[2]) && is_octet(
        parts[3],
    )
}

fn octet(s: &str) -> (r: bool)
    ensures
        r == is_octet(s@),
{
    let c = chars(s);
    if c.len() == 1 {
        '0' <= c[0] && c[0] <= '9'
    } else if c.len() == 2 {
        '0' < c[0] && c[0] <= '9' && '0' <= c[1] && c[1] <= '9'
    } else if c.len() == 3 {
        if '0' < c[0] && c[0] <= '9' && '0' <= c[1] && c[1] <= '9' && '0' <= c[2] && c[2] <= '9' {
            let a: u32 = c[0] as u32 - 48;
            let b: u32 = c[1] as u32 - 48;
            let d: u32 = c[2] as u32 - 48;
            100 * a + 10 * b + d <= 255
        } else {
            false
        }
    } else {
        false
    }
}

/// Checks an address that was given on the command line.
pub fn check_ip(ip: &str) -> (r: Result<(), String>)
    ensures
        match r {
            Ok(_) => is_ipv4(ip@),
            Err(e) => !is_ipv4(ip@) && e@ == "Invalid IP address: "@ + ip@,
        },
{
    let parts = str_split(ip, '.');
    let ok = if parts.len() == 4 {
        assert(texts(parts@)[0] == parts@[0]@);
        assert(texts(parts@)[1] == parts@[1]@);
        assert(texts(parts@)[2] == parts@[2]@);
        assert(texts(parts@)[3] == parts@[3]@);
        octet(parts[0].as_str()) && octet(parts[1].as_str()) && octet(parts[2].as_str()) && octet(
            parts[3].as_str(),
        )
    } else {
        false
    };
    if ok {
        Ok(())
    } else {
        Err(cat("Invalid IP address: ", ip))
    }
}

// ── The static fallback address ──

/// The line in front of the block in the configuration of the DHCP client.
pub open spec fn marker_start() -> Seq<char> {
    "# >>> MIDInet static fallback"@
}

/// The line behind the block.
pub open spec fn marker_end() -> Seq<char> {
    "# <<< MIDInet static fallback"@
}

/// The position behind the block, with the end of its last line.
pub open spec fn block_end(s: Seq<char>, end: int) -> int {
    let e = end + marker_end().len();
    if 0 <= e < s.len() && s[e] == '\n' {
        e + 1
    } else {
        e
    }
}

/// Whether the markers of a configuration do not stand the wrong way round.
pub open spec fn markers_in_order(s: Seq<char>) -> bool {
    match (find(s, marker_start()), find(s, marker_end())) {
        (Some(start), Some(end)) => start <= block_end(s, end),
        _ => true,
    }
}

/// A configuration without its block.
pub open spec fn without_block(s: Seq<char>) -> Seq<char> {
    match (find(s, marker_start()), find(s, marker_end())) {
        (Some(start), Some(end)) => s.take(start) + s.skip(block_end(s, end)),
        _ => s,
    }
}

/// A line with its end.
pub open spec fn line(s: Seq<char>) -> Seq<char> {
    s + "\n"@
}

/// The line that names the profile of an interface.
pub open spec fn profile_line(iface: Seq<char>) -> Seq<char> {
    "profile static_"@ + iface
}

/// What stands in front of the address.
pub open spec fn address_key() -> Seq<char> {
    "static ip_address="@
}

/// The line with the address.
pub open spec fn address_line(ip: Seq<char>, subnet: Seq<char>) -> Seq<char> {
    address_key() + (ip + "/"@ + subnet)
}

/// The lines of the block between its markers.
pub open spec fn block_body(ip: Seq<char>, subnet: Seq<char>, iface: Seq<char>) -> Seq<char> {
    line(profile_line(iface)) + (line(address_line(ip, subnet)) + (line("\ninterface "@ + iface)
        + line("fallback static_"@ + iface)))
}

/// The block for an address on an interface.
pub open spec fn fallback_block(ip: Seq<char>, subnet: Seq<char>, iface: Seq<char>) -> Seq<char> {
    "\n"@ + (line(marker_start()) + (block_body(ip, subnet, iface) + line(marker_end())))
}

/// A configuration with a new block in place of the old one.
pub open spec fn with_static_ip(
    s: Seq<char>,
    ip: Seq<char>,
    subnet: Seq<char>,
    iface: Seq<char>,
) -> Seq<char> {
    without_block(s) + fallback_block(ip, subnet, iface)
}

fn locate_block(c: &Vec<char>) -> (r: Option<(usize, usize)>)
    ensures
        match (find(c@, marker_start()), find(c@, marker_end())) {
            (Some(start), Some(end)) => (r matches Some(p) && p.0 == start && p.1 == block_end(
                c@,
                end,
            )) && start <= c@.len() && block_end(c@, end) <= c@.len(),
            _ => r is None,
        },
{
    let len: usize = c.len();
    let start_text = chars("# >>> MIDInet static fallback");
    let end_text = chars("# <<< MIDInet static fallback");
    let start = find_chars(c.as_slice(), start_text.as_slice());
    let end = find_chars(c.as_slice(), end_text.as_slice());
    match (start, end) {
        (Some(a), Some(b)) => {
            let behind: usize = b + end_text.len();
            let to: usize = if behind < len && c[behind] == '\n' {
                behind + 1
            } else {
                behind
            };
            Some((a, to))
        },
        _ => None,
    }
}

/// Whether the markers of a configuration do not stand the wrong way round, so
/// that the block can be replaced.
pub fn can_replace_block(contents: &str) -> (r: bool)
    ensures
        r == markers_in_order(contents@),
{
    let c = chars(contents);
    match locate_block(&c) {
        Some((start, to)) => start <= to,
        None => true,
    }
}

/// Replaces the block of a configuration, or adds one at its end.
pub fn set_static_ip(contents: &str, ip: &str, subnet: &str, iface: &str) -> (r: String)
    requires
        markers_in_order(contents@),
    ensures
        r@ == with_static_ip(contents@, ip@, subnet@, iface@),
{
    let c = chars(contents);
    let kept = match locate_block(&c) {
        Some((start, to)) => {
            let head = slice_text(c.as_slice(), 0, start);
            let len: usize = c.len();
            let tail = slice_text(c.as_slice(), to, len);
            let kept = cat(head.as_str(), tail.as_str());
            assert(head@ =~= c@.take(start as int));
            assert(tail@ =~= c@.skip(to as int));
            kept
        },
        None => cat(contents, ""),
    };
    proof {
        reveal_strlit("");
        assert(kept@ =~= without_block(contents@));
    }
    let head = cat3("\n", "# >>> MIDInet static fallback", "\n");
    let profile = cat3("profile static_", iface, "\n");
    let network = cat3(ip, "/", subnet);
    let address = cat3("static ip_address=", network.as_str(), "\n");
    let interface = cat3("\ninterface ", iface, "\n");
    let fallback = cat3("fallback static_", iface, "\n");
    let foot = cat("# <<< MIDInet static fallback", "\n");
    let upper = cat3(head.as_str(), profile.as_str(), address.as_str());
    let lower = cat3(interface.as_str(), fallback.as_str(), foot.as_str());
    let block = cat(upper.as_str(), lower.as_str());
    assert(block@ =~= fallback_block(ip@, subnet@, iface@));
    cat(kept.as_str(), block.as_str())
}

/// Whether a line opens the block.
pub open spec fn opens_block(line: Seq<char>) -> bool {
    contains(line, "MIDInet static fallback"@) && "#"@.is_prefix_of(line) && contains(
        line,
        ">>>"@,
    )
}

/// Whether a line closes the block.
pub open spec fn closes_block(line: Seq<char>) -> bool {
    contains(line, "<<< MIDInet static fallback"@)
}

/// A text without a prefix, however often it stands there.
pub open spec fn without_prefix(s: Seq<char>, p: Seq<char>) -> Seq<char>
    decreases s.len(),
{
    if p.len() > 0 && p.is_prefix_of(s) {
        without_prefix(s.skip(p.len() as int), p)
    } else {
        s
    }
}

/// The address in the first block that has one, from a line on.
pub open spec fn fallback_from(v: Seq<Seq<char>>, i: int, in_block: bool) -> Option<Seq<char>>
    decreases v.len() - i,
{
    if i < 0 || i >= v.len() {
        None
    } else {
        let inside = in_block || opens_block(v[i]);
        if inside && address_key().is_prefix_of(v[i]) {
            Some(without_prefix(v[i], address_key()))
        } else {
            fallback_from(v, i + 1, inside && !closes_block(v[i]))
        }
    }
}

/// The fallback address of a configuration.
pub open spec fn fallback_of(s: Seq<char>) -> Option<Seq<char>> {
    fallback_from(lines(s), 0, false)
}

fn strip_key(line: &str) -> (r: String)
    ensures
        r@ == without_prefix(line@, address_key()),
{
    let mut rest = cat(line, "");
    proof {
        reveal_strlit("");
        reveal_strlit("static ip_address=");
        assert(rest@ =~= line@);
    }
    while str_starts_with(rest.as_str(), "static ip_address=")
        invariant
            address_key().len() == 18,
            without_prefix(rest@, address_key()) == without_prefix(line@, address_key()),
        decreases rest@.len(),
    {
        rest = str_skip(rest.as_str(), 18);
    }
    rest
}

/// Reads the fallback address out of a configuration.
pub fn parse_midinet_fallback(contents: &str) -> (r: Option<String>)
    ensures
        text_opt(r) == fallback_of(contents@),
{
    let v = str_lines(contents);
    let mut in_block = false;
    let mut i: usize = 0;
    while i < v.len()
        invariant
            i <= v@.len(),
            texts(v@) == lines(contents@),
            fallback_from(texts(v@), i as int, in_block) == fallback_of(contents@),
        decreases v@.len() - i,
    {
        let line = v[i].as_str();
        assert(texts(v@)[i as int] == line@);
        if str_contains(line, "MIDInet static fallback") && str_starts_with(line, "#")
            && str_contains(line, ">>>") {
            in_block = true;
        }
        if in_block && str_starts_with(line, "static ip_address=") {
            return Some(strip_key(line));
        }
        if str_contains(line, "<<< MIDInet static fallback") {
            in_block = false;
        }
        i += 1;
    }
    None
}

// ── The hostname ──

/// The line that names the host itself.
pub open spec fn host_line(name: Seq<char>) -> Seq<char> {
    "127.0.1.1\t"@ + name
}

/// Whether a line names the host itself.
pub open spec fn is_host_line(line: Seq<char>) -> bool {
    "127.0.1.1"@.is_prefix_of(line)
}

/// Whether some line names the host itself.
pub open spec fn has_host_line(v: Seq<Seq<char>>) -> bool {
    exists|i: int| 0 <= i < v.len() && is_host_line(#[trigger] v[i])
}

/// Lines with every one that names the host replaced.
pub open spec fn renamed(v: Seq<Seq<char>>, name: Seq<char>) -> Seq<Seq<char>> {
    v.map_values(
        |line: Seq<char>|
            if is_host_line(line) {
                host_line(name)
            } else {
                line
            },
    )
}

/// A text that ends its last line.
pub open spec fn line_ended(s: Seq<char>) -> Seq<char> {
    if s.len() > 0 && s.last() == '\n' {
        s
    } else {
        s.push('\n')
    }
}

/// The hosts file with a new hostname: the lines that name the host are
/// replaced, or one is added.
pub open spec fn with_hostname(s: Seq<char>, name: Seq<char>) -> Seq<char> {
    let v = lines(s);
    line_ended(
        if has_host_line(v) {
            joined(renamed(v, name), "\n"@)
        } else {
            joined(renamed(v, name), "\n"@) + "\n"@ + host_line(name)
        },
    )
}

/// Puts a hostname into the hosts file.
pub fn set_hostname(contents: &str, name: &str) -> (r: String)
    ensures
        r@ == with_hostname(contents@, name@),
{
    let v = str_lines(contents);
    let mut out: Vec<String> = Vec::new();
    let mut updated = false;
    let mut i: usize = 0;
    while i < v.len()
        invariant
            i <= v@.len(),
            texts(v@) == lines(contents@),
            texts(out@) =~= renamed(lines(contents@), name@).take(i as int),
            updated == has_host_line(lines(contents@).take(i as int)),
        decreases v@.len() - i,
    {
        let ghost before = texts(out@);
        let ghost all = lines(contents@);
        assert(texts(v@)[i as int] == v@[i as int]@);
        let ghost seen = all.take(i as int);
        let ghost now = all.take(i + 1);
        assert(now[i as int] == all[i as int]);
        assert(forall|k: int| 0 <= k < i ==> seen[k] == now[k]);
        let line = if str_starts_with(v[i].as_str(), "127.0.1.1") {
            updated = true;
            cat("127.0.1.1\t", name)
        } else {
            v[i].clone()
        };
        out.push(line);
        assert(texts(out@) =~= before.push(line@));
        i += 1;
    }
    assert(lines(contents@).take(i as int) =~= lines(contents@));
    assert(renamed(lines(contents@), name@).take(i as int) =~= renamed(lines(contents@), name@));
    let mut r = str_join(&out, "\n");
    if !updated {
        let added = cat("127.0.1.1\t", name);
        r = cat3(r.as_str(), "\n", added.as_str());
    }
    let c = chars(r.as_str());
    if c.len() == 0 || c[c.len() - 1] != '\n' {
        r.push('\n');
    }
    r
}

// ── What the edits keep ──

/// The lines of a text that is put behind a line are its own lines.
proof fn lemma_lines_shift(a: Seq<char>, b: Seq<char>, i: int)
    requires
        0 <= i <= b.len(),
    ensures
        next_char(a + b, '\n', a.len() + i) == a.len() + next_char(b, '\n', i),
        lines_from(a + b, a.len() + i) == lines_from(b, i),
    decreases b.len() - i,
{
    let s = a + b;
    if i < b.len() {
        assert(s[a.len() + i] == b[i]);
        lemma_next_shift(a, b, i);
        let to = next_char(b, '\n', i);
        lemma_next_bounds(b, i);
        assert(s.subrange(a.len() + i, a.len() + to) =~= b.subrange(i, to));
        assert(s.subrange(a.len() + i, s.len() as int) =~= b.subrange(i, b.len() as int));
        if to < b.len() {
            lemma_lines_shift(a, b, to + 1);
        }
    }
}

proof fn lemma_next_bounds(s: Seq<char>, i: int)
    requires
        0 <= i <= s.len(),
    ensures
        i <= next_char(s, '\n', i) <= s.len(),
        next_char(s, '\n', i) < s.len() ==> s[next_char(s, '\n', i)] == '\n',
        forall|k: int| i <= k < next_char(s, '\n', i) ==> s[k] != '\n',
    decreases s.len() - i,
{
    if i < s.len() && s[i] != '\n' {
        lemma_next_bounds(s, i + 1);
    }
}

proof fn lemma_next_shift(a: Seq<char>, b: Seq<char>, i: int)
    requires
        0 <= i <= b.len(),
    ensures
        next_char(a + b, '\n', a.len() + i) == a.len() + next_char(b, '\n', i),
    decreases b.len() - i,
{
    if i < b.len() {
        assert((a + b)[a.len() + i] == b[i]);
        if b[i] != '\n' {
            lemma_next_shift(a, b, i + 1);
        }
    }
}

/// The lines of a text in front of another one do not change.
proof fn lemma_next_front(a: Seq<char>, b: Seq<char>, i: int)
    requires
        0 <= i < a.len(),
        a.last() == '\n',
    ensures
        next_char(a + b, '\n', i) == next_char(a, '\n', i),
        next_char(a, '\n', i) < a.len(),
    decreases a.len() - i,
{
    assert((a + b)[i] == a[i]);
    if a[i] != '\n' {
        lemma_next_front(a, b, i + 1);
    }
}

proof fn lemma_lines_front(a: Seq<char>, b: Seq<char>, i: int)
    requires
        0 <= i <= a.len(),
        a.len() > 0,
        a.last() == '\n',
    ensures
        lines_from(a + b, i) == lines_from(a, i) + lines(b),
    decreases a.len() - i,
{
    let s = a + b;
    if i < a.len() {
        lemma_next_front(a, b, i);
        lemma_next_bounds(a, i);
        let to = next_char(a, '\n', i);
        assert(s.subrange(i, to) =~= a.subrange(i, to));
        lemma_lines_front(a, b, to + 1);
        assert(lines_from(s, i) =~= lines_from(a, i) + lines(b));
    } else {
        lemma_lines_shift(a, b, 0);
        assert(lines_from(a, i) =~= Seq::<Seq<char>>::empty());
        assert(Seq::<Seq<char>>::empty() + lines(b) =~= lines(b));
    }
}

/// A line in front of a text is its first line.
proof fn lemma_first_line(line: Seq<char>, rest: Seq<char>)
    requires
        forall|k: int| 0 <= k < line.len() ==> line[k] != '\n',
    ensures
        lines(line + "\n"@ + rest) == seq![without_cr(line)] + lines(rest),
{
    reveal_strlit("\n");
    let a = line + "\n"@;
    assert(a =~= line.push('\n'));
    lemma_next_bounds(a, 0);
    let to = next_char(a, '\n', 0);
    assert(to == line.len()) by {
        if to < line.len() {
            assert(a[to] == line[to]);
        } else if to > line.len() {
            assert(a[line.len() as int] != '\n');
        }
    }
    assert(a.subrange(0, to) =~= line);
    assert(lines_from(a, to + 1) =~= Seq::<Seq<char>>::empty());
    assert(lines(a) =~= seq![without_cr(line)]);
    lemma_lines_front(a, rest, 0);
}

/// A text that holds no part of a line holds no line with it.
proof fn lemma_lines_without(s: Seq<char>, p: Seq<char>, i: int)
    requires
        0 <= i <= s.len(),
        p.len() > 0,
        !contains(s, p),
    ensures
        forall|k: int| 0 <= k < lines_from(s, i).len() ==> !contains(#[trigger] lines_from(s, i)[k], p),
    decreases s.len() - i,
{
    let v = lines_from(s, i);
    lemma_next_bounds(s, i);
    let to = next_char(s, '\n', i);
    if i < s.len() {
        let line = s.subrange(i, to);
        let first = if to < s.len() {
            without_cr(line)
        } else {
            line
        };
        if contains(first, p) {
            let k = choose|k: int| occurs_at(first, p, k);
            assert(s.subrange(i + k, i + k + p.len()) =~= first.subrange(k, k + p.len()));
            assert(occurs_at(s, p, i + k));
        }
        if to < s.len() {
            lemma_lines_without(s, p, to + 1);
            assert forall|k: int| 0 <= k < v.len() implies !contains(#[trigger] v[k], p) by {
                if k > 0 {
                    assert(v[k] == lines_from(s, to + 1)[k - 1]);
                }
            }
        }
    }
}

/// Lines that do not open a block are passed over.
proof fn lemma_fallback_skips(a: Seq<Seq<char>>, b: Seq<Seq<char>>, i: int)
    requires
        0 <= i <= a.len(),
        forall|k: int| 0 <= k < a.len() ==> !opens_block(#[trigger] a[k]),
    ensures
        fallback_from(a + b, i, false) == fallback_from(b, 0, false),
    decreases a.len() - i,
{
    if i < a.len() {
        assert((a + b)[i] == a[i]);
        lemma_fallback_skips(a, b, i + 1);
    } else {
        lemma_fallback_shift(a, b, 0, false);
    }
}

proof fn lemma_fallback_shift(a: Seq<Seq<char>>, b: Seq<Seq<char>>, i: int, in_block: bool)
    requires
        0 <= i <= b.len(),
    ensures
        fallback_from(a + b, a.len() + i, in_block) == fallback_from(b, i, in_block),
    decreases b.len() - i,
{
    if i < b.len() {
        assert((a + b)[a.len() + i] == b[i]);
        let inside = in_block || opens_block(b[i]);
        lemma_fallback_shift(a, b, i + 1, inside && !closes_block(b[i]));
    }
}

/// Whether a text holds a character.
pub open spec fn has_char(s: Seq<char>, c: char) -> bool {
    exists|k: int| 0 <= k < s.len() && s[k] == c
}

/// An address begins with a digit and lies on one line.
proof fn lemma_ipv4_plain(ip: Seq<char>)
    requires
        is_ipv4(ip),
    ensures
        ip.len() > 0,
        is_digit(ip[0]),
        forall|k: int| 0 <= k < ip.len() ==> is_digit(#[trigger] ip[k]) || ip[k] == '.',
{
    lemma_split_parts(ip, 0);
    let parts = split(ip, '.');
    assert forall|k: int| 0 <= k < ip.len() implies is_digit(#[trigger] ip[k]) || ip[k] == '.' by {
        if ip[k] != '.' {
            let (p, j) = choose|p: int, j: int|
                0 <= p < parts.len() && 0 <= j < parts[p].len() && #[trigger] parts[p][j] == ip[k];
            assert(p == 0 || p == 1 || p == 2 || p == 3);
            assert(is_octet(parts[p]));
            assert(j == 0 || j == 1 || j == 2);
        }
    }
    let to = next_char(ip, '.', 0);
    lemma_dot_bounds(ip, 0);
    assert(parts[0].len() > 0);
    assert(parts[0] == ip.subrange(0, to) || parts[0] == ip.subrange(0, ip.len() as int));
    assert(ip[0] == parts[0][0]);
}

proof fn lemma_dot_bounds(s: Seq<char>, i: int)
    requires
        0 <= i <= s.len(),
    ensures
        i <= next_char(s, '.', i) <= s.len(),
        next_char(s, '.', i) < s.len() ==> s[next_char(s, '.', i)] == '.',
    decreases s.len() - i,
{
    if i < s.len() && s[i] != '.' {
        lemma_dot_bounds(s, i + 1);
    }
}

/// Every character between the dots stands in one of the parts.
proof fn lemma_split_parts(s: Seq<char>, i: int)
    requires
        0 <= i <= s.len(),
    ensures
        split_from(s, '.', i).len() > 0,
        forall|k: int|
            i <= k < s.len() && #[trigger] s[k] != '.' ==> exists|p: int, j: int|
                0 <= p < split_from(s, '.', i).len() && 0 <= j < split_from(s, '.', i)[p].len()
                    && #[trigger] split_from(s, '.', i)[p][j] == s[k],
    decreases s.len() - i,
{
    let v = split_from(s, '.', i);
    let to = next_char(s, '.', i);
    lemma_dot_bounds(s, i);
    if to < s.len() {
        lemma_split_parts(s, to + 1);
        let w = split_from(s, '.', to + 1);
        assert forall|k: int| i <= k < s.len() && #[trigger] s[k] != '.' implies exists|
            p: int,
            j: int,
        |
            0 <= p < v.len() && 0 <= j < v[p].len() && #[trigger] v[p][j] == s[k] by {
            if k < to {
                assert(v[0][k - i] == s[k]);
            } else {
                let (p, j) = choose|p: int, j: int|
                    0 <= p < w.len() && 0 <= j < w[p].len() && #[trigger] w[p][j] == s[k];
                assert(v[p + 1] == w[p]);
                assert(v[p + 1][j] == s[k]);
            }
        }
    } else {
        assert forall|k: int| i <= k < s.len() && #[trigger] s[k] != '.' implies exists|
            p: int,
            j: int,
        |
            0 <= p < v.len() && 0 <= j < v[p].len() && #[trigger] v[p][j] == s[k] by {
            assert(v[0][k - i] == s[k]);
        }
    }
}

/// A character that stands in neither of two texts does not stand in both
/// together.
proof fn lemma_plain_cat(a: Seq<char>, b: Seq<char>, c: char)
    requires
        !has_char(a, c),
        !has_char(b, c),
    ensures
        !has_char(a + b, c),
{
    assert forall|k: int| 0 <= k < (a + b).len() implies (a + b)[k] != c by {
        if k < a.len() {
            assert((a + b)[k] == a[k]);
        } else {
            assert((a + b)[k] == b[k - a.len()]);
        }
    }
}

proof fn lemma_cat_assoc(a: Seq<char>, b: Seq<char>, c: Seq<char>)
    ensures
        (a + b) + c == a + (b + c),
{
    assert((a + b) + c =~= a + (b + c));
}

/// The opening marker opens the block and does nothing else.
proof fn lemma_opening()
    ensures
        opens_block(marker_start()),
        !closes_block(marker_start()),
        !address_key().is_prefix_of(marker_start()),
        !has_char(marker_start(), '\n'),
        without_cr(marker_start()) == marker_start(),
{
    reveal_strlit("#");
    reveal_strlit(">>>");
    reveal_strlit("MIDInet static fallback");
    reveal_strlit("<<< MIDInet static fallback");
    reveal_strlit("# >>> MIDInet static fallback");
    reveal_strlit("static ip_address=");
    let mark = marker_start();
    let text = "MIDInet static fallback"@;
    assert(mark.subrange(6, 6int + text.len()) =~= text);
    assert(occurs_at(mark, text, 6));
    assert(mark.subrange(2, 5) =~= ">>>"@);
    assert(occurs_at(mark, ">>>"@, 2));
    assert("#"@ =~= mark.subrange(0, 1));
    if address_key().is_prefix_of(mark) {
        assert(mark.subrange(0, 18)[0] == 's');
    }
    if closes_block(mark) {
        let close = "<<< MIDInet static fallback"@;
        let i = choose|i: int| occurs_at(mark, close, i);
        assert(mark.subrange(i, i + close.len())[0] == '<');
        assert(mark[i] == '<');
    }
}

/// The line of the profile does not close the block and holds no address.
proof fn lemma_profile(iface: Seq<char>)
    requires
        !has_char(iface, '<'),
        !has_char(iface, '\n'),
    ensures
        !closes_block(without_cr(profile_line(iface))),
        !address_key().is_prefix_of(without_cr(profile_line(iface))),
        !has_char(profile_line(iface), '\n'),
{
    reveal_strlit("<<< MIDInet static fallback");
    reveal_strlit("profile static_");
    reveal_strlit("static ip_address=");
    let profile = profile_line(iface);
    let second = without_cr(profile);
    lemma_plain_cat("profile static_"@, iface, '\n');
    lemma_plain_cat("profile static_"@, iface, '<');
    if closes_block(second) {
        let close = "<<< MIDInet static fallback"@;
        let i = choose|i: int| occurs_at(second, close, i);
        assert(second.subrange(i, i + close.len())[0] == '<');
        assert(profile[i] == '<');
    }
    if address_key().is_prefix_of(second) {
        assert(second.subrange(0, 18)[0] == 's');
        assert(second[0] == profile[0]);
    }
}

/// The line of the address gives the address.
proof fn lemma_address(ip: Seq<char>, subnet: Seq<char>)
    requires
        is_ipv4(ip),
        !has_char(subnet, '\n') && !has_char(subnet, '\r'),
    ensures
        address_key().is_prefix_of(address_line(ip, subnet)),
        without_prefix(address_line(ip, subnet), address_key()) == ip + "/"@ + subnet,
        !has_char(address_line(ip, subnet), '\n'),
        without_cr(address_line(ip, subnet)) == address_line(ip, subnet),
{
    reveal_strlit("static ip_address=");
    reveal_strlit("/");
    lemma_ipv4_plain(ip);
    let value = ip + "/"@ + subnet;
    let address = address_line(ip, subnet);
    lemma_plain_cat(ip, "/"@, '\n');
    lemma_plain_cat(ip + "/"@, subnet, '\n');
    lemma_plain_cat(address_key(), value, '\n');
    if subnet.len() > 0 {
        assert(address.last() == subnet.last());
    } else {
        assert(address.last() == '/');
    }
    assert(address.subrange(0, 18) =~= address_key());
    assert(address.skip(18) =~= value);
    if address_key().is_prefix_of(value) {
        assert(value.subrange(0, 18)[0] == 's');
        assert(value[0] == ip[0]);
    }
    assert(without_prefix(value, address_key()) == value);
}

/// A text that does not speak of the fallback has no marker, and its lines open
/// no block.
proof fn lemma_no_fallback(s: Seq<char>)
    requires
        !contains(s, "MIDInet static fallback"@),
    ensures
        find(s, marker_start()) is None,
        forall|k: int|
            0 <= k < lines(line(s)).len() ==> !opens_block(#[trigger] lines(line(s))[k]),
{
    reveal_strlit("\n");
    reveal_strlit("MIDInet static fallback");
    reveal_strlit("# >>> MIDInet static fallback");
    let text = "MIDInet static fallback"@;
    let mark = marker_start();
    if exists|i: int| first_at(s, mark, i) {
        let i = choose|i: int| first_at(s, mark, i);
        let sub = s.subrange(i, i + mark.len());
        assert(sub == mark);
        assert(s.subrange(i + 6, i + 6 + text.len()) =~= mark.subrange(6, 6int + text.len()));
        assert(mark.subrange(6, 6int + text.len()) =~= text);
        assert(occurs_at(s, text, i + 6));
    }
    let front = line(s);
    if contains(front, text) {
        let i = choose|i: int| occurs_at(front, text, i);
        let sub = front.subrange(i, i + text.len());
        if i + text.len() > s.len() {
            assert(sub[text.len() - 1] == '\n');
        } else {
            assert(s.subrange(i, i + text.len()) =~= sub);
            assert(occurs_at(s, text, i));
        }
    }
    lemma_lines_without(front, text, 0);
}

/// The address that was set is the address that is shown, in every configuration
/// that speaks of no fallback yet.
pub proof fn law_static_ip_reads_back(
    s: Seq<char>,
    ip: Seq<char>,
    subnet: Seq<char>,
    iface: Seq<char>,
)
    requires
        !contains(s, "MIDInet static fallback"@),
        is_ipv4(ip),
        !has_char(subnet, '\n') && !has_char(subnet, '\r'),
        !has_char(iface, '\n') && !has_char(iface, '<'),
    ensures
        fallback_of(with_static_ip(s, ip, subnet, iface)) == Some(ip + "/"@ + subnet),
{
    lemma_no_fallback(s);
    lemma_opening();
    lemma_profile(iface);
    lemma_address(ip, subnet);
    let mark = marker_start();
    let profile = profile_line(iface);
    let address = address_line(ip, subnet);
    let rest = line("\ninterface "@ + iface) + line("fallback static_"@ + iface);
    let tail = rest + line(marker_end());
    let r2 = line(address) + tail;
    let r1 = line(profile) + r2;
    let r0 = line(mark) + r1;
    let t = with_static_ip(s, ip, subnet, iface);
    assert(t == line(s) + r0) by {
        lemma_cat_assoc(line(address), rest, line(marker_end()));
        lemma_cat_assoc(line(profile), line(address) + rest, line(marker_end()));
        lemma_cat_assoc(s, "\n"@, r0);
    }
    assert(line(s).len() > 0 && line(s).last() == '\n') by {
        reveal_strlit("\n");
    }
    lemma_lines_front(line(s), r0, 0);
    lemma_first_line(mark, r1);
    lemma_first_line(profile, r2);
    lemma_first_line(address, tail);
    let v = lines(r0);
    lemma_fallback_skips(lines(line(s)), v, 0);
    assert(v[0] == mark);
    assert(v[1] == without_cr(profile));
    assert(v[2] == address);
    assert(fallback_from(v, 2, true) == Some(ip + "/"@ + subnet));
    assert(fallback_from(v, 1, true) == Some(ip + "/"@ + subnet));
    assert(fallback_from(v, 0, false) == Some(ip + "/"@ + subnet));
}

/// The block holds no `#` but in its markers.
proof fn lemma_body_plain(ip: Seq<char>, subnet: Seq<char>, iface: Seq<char>)
    requires
        !has_char(ip, '#') && !has_char(subnet, '#') && !has_char(iface, '#'),
    ensures
        !has_char(block_body(ip, subnet, iface), '#'),
{
    reveal_strlit("\n");
    reveal_strlit("/");
    reveal_strlit("profile static_");
    reveal_strlit("static ip_address=");
    reveal_strlit("\ninterface ");
    reveal_strlit("fallback static_");
    lemma_plain_cat("profile static_"@, iface, '#');
    lemma_plain_cat(profile_line(iface), "\n"@, '#');
    lemma_plain_cat(ip, "/"@, '#');
    lemma_plain_cat(ip + "/"@, subnet, '#');
    lemma_plain_cat(address_key(), ip + "/"@ + subnet, '#');
    lemma_plain_cat(address_line(ip, subnet), "\n"@, '#');
    lemma_plain_cat("\ninterface "@, iface, '#');
    lemma_plain_cat("\ninterface "@ + iface, "\n"@, '#');
    lemma_plain_cat("fallback static_"@, iface, '#');
    lemma_plain_cat("fallback static_"@ + iface, "\n"@, '#');
    let rest = line("\ninterface "@ + iface) + line("fallback static_"@ + iface);
    lemma_plain_cat(line("\ninterface "@ + iface), line("fallback static_"@ + iface), '#');
    lemma_plain_cat(line(address_line(ip, subnet)), rest, '#');
    lemma_plain_cat(line(profile_line(iface)), line(address_line(ip, subnet)) + rest, '#');
}

/// A text on one line that does not stand in `s` does not begin in `s` and its
/// line end either.
proof fn lemma_not_in_front(s: Seq<char>, rest: Seq<char>, p: Seq<char>, j: int)
    requires
        !contains(s, p),
        p.len() > 0,
        !has_char(p, '\n'),
        0 <= j <= s.len(),
    ensures
        !occurs_at(s.push('\n') + rest, p, j),
{
    let t = s.push('\n') + rest;
    if occurs_at(t, p, j) {
        let sub = t.subrange(j, j + p.len());
        if j + p.len() > s.len() {
            assert(sub[s.len() - j] == t[s.len() as int]);
        } else {
            assert(s.subrange(j, j + p.len()) =~= sub);
            assert(occurs_at(s, p, j));
        }
    }
}

/// What tells the two markers apart and from every other text.
proof fn lemma_markers()
    ensures
        marker_start().len() > 2 && marker_end().len() > 2,
        !has_char(marker_start(), '\n') && !has_char(marker_end(), '\n'),
        marker_end()[0] == '#' && marker_end()[2] != marker_start()[2],
        forall|k: int| 0 < k < marker_start().len() ==> marker_start()[k] != '#',
{
    reveal_strlit("# >>> MIDInet static fallback");
    reveal_strlit("# <<< MIDInet static fallback");
}

/// The first markers of a configuration with one block are those of the block.
proof fn lemma_block_found(s: Seq<char>, open: Seq<char>, body: Seq<char>, close: Seq<char>)
    requires
        !contains(s, open) && !contains(s, close),
        !has_char(body, '#'),
        open.len() > 2 && close.len() > 2,
        !has_char(open, '\n') && !has_char(close, '\n'),
        close[0] == '#' && close[2] != open[2],
        forall|k: int| 0 < k < open.len() ==> open[k] != '#',
    ensures
        ({
            let t = s.push('\n') + (open + (body + close.push('\n')));
            &&& find(t, open) == Some(s.len() as int + 1)
            &&& find(t, close) == Some(t.len() - 1 - close.len())
            &&& t.last() == '\n'
        }),
{
    let tail = body + close.push('\n');
    let behind = open + tail;
    let t = s.push('\n') + behind;
    let a = s.len() as int + 1;
    let b = t.len() - 1 - close.len();
    assert(t.subrange(a, a + open.len()) =~= open);
    assert(occurs_at(t, open, a));
    assert forall|j: int| 0 <= j < a implies !occurs_at(t, open, j) by {
        lemma_not_in_front(s, behind, open, j);
    }
    lemma_find(t, open, a);
    assert(t.subrange(b, b + close.len()) =~= close);
    assert(occurs_at(t, close, b));
    assert forall|j: int| 0 <= j < b implies !occurs_at(t, close, j) by {
        if j < a {
            lemma_not_in_front(s, behind, close, j);
        } else if occurs_at(t, close, j) {
            let sub = t.subrange(j, j + close.len());
            assert(sub[0] == t[j] && sub[2] == t[j + 2]);
            if j < a + open.len() {
                assert(t[j] == open[j - a]);
                assert(j == a);
                assert(t[j + 2] == open[2]);
            } else {
                assert(t[j] == body[j - a - open.len()]);
            }
        }
    }
    lemma_find(t, close, b);
}

/// Where the parts of a configuration with a block meet.
proof fn lemma_shape(s: Seq<char>, open: Seq<char>, body: Seq<char>, close: Seq<char>)
    ensures
        s + ("\n"@ + (line(open) + (body + line(close)))) == s.push('\n') + (open + (("\n"@ + body)
            + close.push('\n'))),
{
    reveal_strlit("\n");
    assert(s + ("\n"@ + (line(open) + (body + line(close)))) =~= s.push('\n') + (open + ((
    "\n"@ + body) + close.push('\n'))));
}

/// Setting an address again replaces the block that was set before: in a
/// configuration without a block, only an empty line remains of it.
pub proof fn law_static_ip_replaced(
    s: Seq<char>,
    ip: Seq<char>,
    subnet: Seq<char>,
    iface: Seq<char>,
    ip2: Seq<char>,
    subnet2: Seq<char>,
    iface2: Seq<char>,
)
    requires
        !contains(s, marker_start()),
        !contains(s, marker_end()),
        !has_char(ip, '#') && !has_char(subnet, '#') && !has_char(iface, '#'),
    ensures
        markers_in_order(with_static_ip(s, ip, subnet, iface)),
        with_static_ip(with_static_ip(s, ip, subnet, iface), ip2, subnet2, iface2)
            == with_static_ip(s.push('\n'), ip2, subnet2, iface2),
{
    let body = block_body(ip, subnet, iface);
    let t = with_static_ip(s, ip, subnet, iface);
    assert(find(s, marker_start()) is None) by {
        if exists|i: int| first_at(s, marker_start(), i) {
            let i = choose|i: int| first_at(s, marker_start(), i);
            assert(occurs_at(s, marker_start(), i));
        }
    }
    let inner = "\n"@ + body;
    assert(!has_char(inner, '#')) by {
        reveal_strlit("\n");
        lemma_body_plain(ip, subnet, iface);
        lemma_plain_cat("\n"@, body, '#');
    }
    lemma_markers();
    lemma_shape(s, marker_start(), body, marker_end());
    lemma_block_found(s, marker_start(), inner, marker_end());
    assert(block_end(t, t.len() - 1 - marker_end().len()) == t.len());
    assert(without_block(t) =~= s.push('\n'));
    let front = s.push('\n');
    assert(find(front, marker_start()) is None) by {
        if exists|i: int| first_at(front, marker_start(), i) {
            let i = choose|i: int| first_at(front, marker_start(), i);
            assert(front + Seq::<char>::empty() =~= front);
            lemma_not_in_front(s, Seq::empty(), marker_start(), i);
        }
    }
}

/// A hosts file whose lines can be told apart again: no line ends with a carriage
/// return, and the last one is not empty.
pub open spec fn plain_lines(v: Seq<Seq<char>>) -> bool {
    &&& v.len() > 0
    &&& v.last().len() > 0
    &&& forall|i: int| 0 <= i < v.len() ==> one_line(#[trigger] v[i])
}

/// Whether a text is a line that keeps its form.
pub open spec fn one_line(s: Seq<char>) -> bool {
    !has_char(s, '\n') && without_cr(s) == s
}

/// Lines that were joined are read back.
proof fn lemma_join_lines(v: Seq<Seq<char>>)
    requires
        v.len() > 0,
        forall|i: int| 0 <= i < v.len() ==> one_line(#[trigger] v[i]),
    ensures
        lines(joined(v, "\n"@).push('\n')) == v,
    decreases v.len(),
{
    reveal_strlit("\n");
    let last = v.last();
    lemma_first_line(last, Seq::empty());
    assert(lines(Seq::<char>::empty()) =~= Seq::<Seq<char>>::empty());
    assert(last + "\n"@ + Seq::<char>::empty() =~= last.push('\n'));
    assert(lines(last.push('\n')) =~= seq![last]);
    if v.len() == 1 {
        assert(v =~= seq![last]);
    } else {
        let head = v.drop_last();
        lemma_join_lines(head);
        let a = joined(head, "\n"@).push('\n');
        assert(joined(v, "\n"@).push('\n') =~= a + last.push('\n'));
        lemma_lines_front(a, last.push('\n'), 0);
        assert(head + seq![last] =~= v);
    }
}

proof fn lemma_joined_ends(v: Seq<Seq<char>>)
    requires
        v.len() > 0,
        v.last().len() > 0,
        one_line(v.last()),
    ensures
        line_ended(joined(v, "\n"@)) == joined(v, "\n"@).push('\n'),
{
    let j = joined(v, "\n"@);
    assert(j.last() == v.last().last());
    assert(v.last()[v.last().len() - 1] != '\n');
}

/// The lines of the hosts file with a new hostname.
pub open spec fn hostname_lines(v: Seq<Seq<char>>, name: Seq<char>) -> Seq<Seq<char>> {
    if has_host_line(v) {
        renamed(v, name)
    } else {
        v.push(host_line(name))
    }
}

proof fn lemma_host_line(name: Seq<char>)
    requires
        one_line(name),
    ensures
        one_line(host_line(name)),
        is_host_line(host_line(name)),
        host_line(name).len() > 0,
{
    reveal_strlit("127.0.1.1\t");
    reveal_strlit("127.0.1.1");
    let h = host_line(name);
    lemma_plain_cat("127.0.1.1\t"@, name, '\n');
    assert(h.subrange(0, 9) =~= "127.0.1.1"@);
    if name.len() > 0 {
        assert(h.last() == name.last());
    }
}

/// A new hostname changes the lines that name the host, or adds one, and keeps
/// every other line in its place.
pub proof fn law_hostname(s: Seq<char>, name: Seq<char>)
    requires
        plain_lines(lines(s)),
        one_line(name),
    ensures
        lines(with_hostname(s, name)) == hostname_lines(lines(s), name),
        plain_lines(lines(with_hostname(s, name))),
        has_host_line(lines(with_hostname(s, name))),
{
    let v = lines(s);
    let w = hostname_lines(v, name);
    let r = renamed(v, name);
    lemma_host_line(name);
    assert forall|i: int| 0 <= i < w.len() implies one_line(#[trigger] w[i]) by {
        if i < v.len() {
            assert(one_line(v[i]));
        }
    }
    assert(w.last().len() > 0) by {
        if has_host_line(v) {
            assert(w.last() == host_line(name) || w.last() == v.last());
        }
    }
    if !has_host_line(v) {
        assert forall|i: int| 0 <= i < v.len() implies r[i] == v[i] by {
            assert(!is_host_line(v[i]));
        }
        assert(r =~= v);
        assert(w.drop_last() =~= v);
        assert(is_host_line(w[v.len() as int]));
    } else {
        let i = choose|i: int| 0 <= i < v.len() && is_host_line(#[trigger] v[i]);
        assert(is_host_line(w[i]));
    }
    assert(one_line(w[w.len() - 1]));
    lemma_joined_ends(w);
    lemma_join_lines(w);
}

/// Of two hostnames that are set one after the other, the second one stays and
/// the first one leaves no trace.
pub proof fn law_hostname_twice(s: Seq<char>, first: Seq<char>, second: Seq<char>)
    requires
        plain_lines(lines(s)),
        one_line(first),
        one_line(second),
    ensures
        with_hostname(with_hostname(s, first), second) == with_hostname(s, second),
{
    law_hostname(s, first);
    law_hostname(s, second);
    lemma_host_line(first);
    let v = lines(s);
    let w = hostname_lines(v, first);
    let x = hostname_lines(v, second);
    assert forall|i: int| 0 <= i < w.len() implies #[trigger] renamed(w, second)[i] == x[i] by {
        if i < v.len() {
            if !has_host_line(v) {
                assert(!is_host_line(v[i]));
            }
        }
    }
    assert(renamed(w, second) =~= x);
    if !has_host_line(v) {
        assert(renamed(v, second) =~= v) by {
            assert forall|i: int| 0 <= i < v.len() implies #[trigger] renamed(v, second)[i]
                == v[i] by {
                assert(!is_host_line(v[i]));
            }
        }
        assert(x.drop_last() =~= v);
    }
}

/// A number is part of an address exactly when it is written plainly and is at most 255.
proof fn lemma_octet_values(s: Seq<char>, n: nat)
    ensures
        s == decimal(n) && n <= 255 ==> is_octet(s),
        s == decimal(n) && n > 255 ==> !is_octet(s),
        is_octet(s) ==> exists|v: u8| s == #[trigger] decimal(v as nat),
{
    lemma_short_decimal(n);
    if is_octet(s) {
        let v: int = if s.len() == 1 {
            digit_of(s[0])
        } else if s.len() == 2 {
            10 * digit_of(s[0]) + digit_of(s[1])
        } else {
            100 * digit_of(s[0]) + 10 * digit_of(s[1]) + digit_of(s[2])
        };
        lemma_short_decimal(v as nat);
        assert(s =~= decimal(v as nat));
        assert(s == decimal((v as u8) as nat));
    }
}

/// An address of four numbers in its usual form.
pub open spec fn dotted_quad(a: nat, b: nat, c: nat, d: nat) -> Seq<char> {
    decimal(a) + seq!['.'] + (decimal(b) + seq!['.'] + (decimal(c) + seq!['.'] + decimal(d)))
}

/// Four numbers with dots between are an address exactly when none is above 255.
pub proof fn law_address_numbers(
    ip: &str,
    r: Result<(), String>,
    a: nat,
    b: nat,
    c: nat,
    d: nat,
)
    requires
        call_ensures(check_ip, (ip,), r),
        ip@ == dotted_quad(a, b, c, d),
    ensures
        r is Ok <==> a <= 255 && b <= 255 && c <= 255 && d <= 255,
{
    lemma_digits_of_decimal(a);
    lemma_digits_of_decimal(b);
    lemma_digits_of_decimal(c);
    lemma_digits_of_decimal(d);
    let t = decimal(c) + seq!['.'] + decimal(d);
    let u = decimal(b) + seq!['.'] + t;
    assert(!decimal(a).contains('.') && !decimal(b).contains('.'));
    assert(!decimal(c).contains('.') && !decimal(d).contains('.'));
    lemma_split_first(decimal(a), '.', u);
    lemma_split_first(decimal(b), '.', t);
    lemma_split_first(decimal(c), '.', decimal(d));
    lemma_split_first(decimal(d), '.', seq![]);
    let parts = split(ip@, '.');
    assert(parts =~= seq![decimal(a), decimal(b), decimal(c), decimal(d)]);
    lemma_octet_values(parts[0], a);
    lemma_octet_values(parts[1], b);
    lemma_octet_values(parts[2], c);
    lemma_octet_values(parts[3], d);
}

/// Nothing else is an address, and what is refused is named.
pub proof fn law_only_addresses(ip: &str, r: Result<(), String>)
    requires
        call_ensures(check_ip, (ip,), r),
    ensures
        r is Ok ==> exists|a: u8, b: u8, c: u8, d: u8|
            ip@ == #[trigger] dotted_quad(a as nat, b as nat, c as nat, d as nat),
        r matches Err(e) ==> e@ == "Invalid IP address: "@ + ip@,
{
    if r is Ok {
        let v = split(ip@, '.');
        lemma_split_from(ip@, '.', 0);
        assert(ip@.skip(0) =~= ip@);
        lemma_octet_values(v[0], 0);
        lemma_octet_values(v[1], 0);
        lemma_octet_values(v[2], 0);
        lemma_octet_values(v[3], 0);
        let a = choose|x: u8| v[0] == #[trigger] decimal(x as nat);
        let b = choose|x: u8| v[1] == #[trigger] decimal(x as nat);
        let c = choose|x: u8| v[2] == #[trigger] decimal(x as nat);
        let d = choose|x: u8| v[3] == #[trigger] decimal(x as nat);
        let w = v.drop_first();
        let x = w.drop_first();
        let y = x.drop_first();
        lemma_joined_first(v, seq!['.']);
        lemma_joined_first(w, seq!['.']);
        lemma_joined_first(x, seq!['.']);
        assert(y =~= seq![v[3]]);
        assert(joined(y, seq!['.']) == v[3]);
        assert(ip@ == dotted_quad(a as nat, b as nat, c as nat, d as nat));
    }
}

/// The block that is put at the end of a configuration without one: what it says about
/// the interface and the address, line by line.
pub proof fn law_block_of_an_address(
    contents: &str,
    ip: &str,
    subnet: &str,
    iface: &str,
    r: String,
)
    requires
        call_ensures(set_static_ip, (contents, ip, subnet, iface), r),
        !contains(contents@, "# >>> MIDInet static fallback"@),
    ensures
        ({
            let profile = "profile static_"@ + iface@ + "\n"@;
            let address = "static ip_address="@ + (ip@ + "/"@ + subnet@) + "\n"@;
            let interface = "\ninterface "@ + iface@ + "\n"@;
            let fallback = "fallback static_"@ + iface@ + "\n"@;
            let opening = "# >>> MIDInet static fallback"@ + "\n"@;
            let closing = "# <<< MIDInet static fallback"@ + "\n"@;
            r@ == contents@ + ("\n"@ + (opening + ((profile + (address + (interface + fallback)))
                + closing)))
        }),
{
    assert(find(contents@, marker_start()) is None) by {
        if exists|i: int| first_at(contents@, marker_start(), i) {
            let i = choose|i: int| first_at(contents@, marker_start(), i);
            assert(occurs_at(contents@, marker_start(), i));
        }
    }
}

/// The address that was set is read back, by the functions that set and read it.
pub proof fn law_set_address_is_shown(
    contents: &str,
    ip: &str,
    subnet: &str,
    iface: &str,
    r: String,
    again: &str,
    shown: Option<String>,
    checked: Result<(), String>,
)
    requires
        call_ensures(check_ip, (ip,), checked),
        checked is Ok,
        !contains(contents@, "MIDInet static fallback"@),
        !has_char(subnet@, '\n') && !has_char(subnet@, '\r'),
        !has_char(iface@, '\n') && !has_char(iface@, '<'),
        call_ensures(set_static_ip, (contents, ip, subnet, iface), r),
        again@ == r@,
        call_ensures(parse_midinet_fallback, (again,), shown),
    ensures
        shown matches Some(a) && a@ == ip@ + "/"@ + subnet@,
{
    law_static_ip_reads_back(contents@, ip@, subnet@, iface@);
}

/// Nothing is read out of a configuration that speaks of no fallback.
pub proof fn law_no_address_without_block(contents: &str, r: Option<String>)
    requires
        call_ensures(parse_midinet_fallback, (contents,), r),
        !contains(contents@, "MIDInet static fallback"@),
    ensures
        r is None,
{
    reveal_strlit("MIDInet static fallback");
    let v = lines(contents@);
    lemma_lines_without(contents@, "MIDInet static fallback"@, 0);
    assert forall|k: int| 0 <= k < v.len() implies !opens_block(#[trigger] v[k]) by {
        assert(!contains(v[k], "MIDInet static fallback"@));
    }
    lemma_fallback_skips(v, seq![], 0);
    assert(v + seq![] =~= v);
    assert(fallback_from(Seq::<Seq<char>>::empty(), 0, false) is None);
}

/// A hostname that is set stands in the lines of the host: in every line that begins
/// with the host's own address, or in a new last line. All other lines stay.
pub proof fn law_hostname_lines(contents: &str, name: &str, r: String, i: int)
    requires
        call_ensures(set_hostname, (contents, name), r),
        plain_lines(lines(contents@)),
        one_line(name@),
    ensures
        ({
            let before = lines(contents@);
            let after = lines(r@);
            let named = exists|k: int|
                0 <= k < before.len() && "127.0.1.1"@.is_prefix_of(#[trigger] before[k]);
            &&& named ==> after.len() == before.len()
            &&& !named ==> after.len() == before.len() + 1 && after.last() == "127.0.1.1\t"@ + name@
            &&& 0 <= i < before.len() ==> after[i] == (if "127.0.1.1"@.is_prefix_of(before[i]) {
                "127.0.1.1\t"@ + name@
            } else {
                before[i]
            })
        }),
{
    law_hostname(contents@, name@);
    let before = lines(contents@);
    if exists|k: int| 0 <= k < before.len() && "127.0.1.1"@.is_prefix_of(#[trigger] before[k]) {
        let k = choose|k: int|
            0 <= k < before.len() && "127.0.1.1"@.is_prefix_of(#[trigger] before[k]);
        assert(is_host_line(before[k]));
    }
    if has_host_line(before) {
        let k = choose|k: int| 0 <= k < before.len() && is_host_line(#[trigger] before[k]);
        assert("127.0.1.1"@.is_prefix_of(before[k]));
    }
    if 0 <= i < before.len() && !has_host_line(before) {
        assert(!is_host_line(before[i]));
    }
}

/// The interface of the default route is the fifth word about it.
pub proof fn law_default_interface(
    route: Option<String>,
    text: &str,
    w: Vec<String>,
    r: String,
)
    requires
        call_ensures(detect_interface, (&route,), r),
        route matches Some(t) ==> t@ == text@,
        call_ensures(str_words, (text,), w),
    ensures
        route is Some && w@.len() >= 5 ==> r@ == w@[4]@,
        route is None || w@.len() < 5 ==> r@ == "eth0"@,
{
    assert(texts(w@).len() == w@.len());
    if w@.len() >= 5 {
        assert(texts(w@)[4] == w@[4]@);
    }
}

/// Only the superuser may go on: every text but the number 0, spaces aside, is refused.
pub proof fn law_superuser(user_id: Option<String>, r: Result<(), String>, i: int)
    requires
        call_ensures(ensure_root, (&user_id,), r),
    ensures
        user_id is None ==> r is Err,
        user_id matches Some(t) ==> (0 <= i < t@.len() && t@[i] != '0' && !is_space(t@[i]) ==> r
            is Err),
        r matches Err(e) ==> e@
            == "This command requires root privileges. Run with: sudo midinet network ..."@,
{
    if let Some(t) = user_id {
        let s = t@;
        if 0 <= i < s.len() && s[i] != '0' && !is_space(s[i]) {
            reveal_strlit("0");
            lemma_trimmed(s);
            let (from, to) = choose|from: int, to: int|
                {
                    &&& 0 <= from <= to <= s.len()
                    &&& trimmed(s) == #[trigger] s.subrange(from, to)
                    &&& forall|k: int| 0 <= k < from ==> is_space(#[trigger] s[k])
                    &&& forall|k: int| to <= k < s.len() ==> is_space(#[trigger] s[k])
                };
            assert(trimmed(s)[i - from] == s[i]);
        }
    }
}

/// The base of an address is the address without the slashes at its end.
pub proof fn law_base_of_an_address(url: &str, r: String, i: int)
    requires
        call_ensures(base_url, (url,), r),
    ensures
        r@.len() <= url@.len(),
        url@.take(r@.len() as int) == r@,
        r@.len() > 0 ==> r@.last() != '/',
        r@.len() <= i < url@.len() ==> url@[i] == '/',
{
    lemma_without_slashes(url@);
    assert(url@.take(r@.len() as int) =~= r@);
}

/// A block can be replaced unless its markers stand the wrong way round: where one of them
/// is missing, and where the first one comes first.
pub proof fn law_replaceable_block(contents: &str, r: bool, i: int, j: int)
    requires
        call_ensures(can_replace_block, (contents,), r),
    ensures
        !contains(contents@, "# >>> MIDInet static fallback"@) || !contains(
            contents@,
            "# <<< MIDInet static fallback"@,
        ) ==> r,
        first_at(contents@, "# >>> MIDInet static fallback"@, i) && first_at(
            contents@,
            "# <<< MIDInet static fallback"@,
            j,
        ) ==> {
            &&& i <= j + 29 ==> r
            &&& i > j + 30 ==> !r
        },
{
    reveal_strlit("# <<< MIDInet static fallback");
    let start = "# >>> MIDInet static fallback"@;
    let end = "# <<< MIDInet static fallback"@;
    lemma_find_first(contents@, start);
    lemma_find_first(contents@, end);
    if first_at(contents@, start, i) && first_at(contents@, end, j) {
        lemma_find(contents@, start, i);
        lemma_find(contents@, end, j);
    }
}

} // verus!
