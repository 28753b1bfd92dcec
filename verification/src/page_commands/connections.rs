//! The connections page: `ss -4tlnp` output as a two-column list of
//! listening processes and their addresses.

use vstd::prelude::*;

use crate::render::model::{join_with, nbsp, push_nbsp};
use crate::render::mono::sat_sub;
use crate::render::width::{parse_u32_radix, parse_u32_radix_chars};
use crate::text::{
    after_last, after_last_chars, char_views, chars_eq, copy_range, find_char,
    find_char_from, find_sub, find_sub_chars, is_space, is_space_char, kept, last_index, last_index_chars,
    lemma_find_char, lemma_find_sub, lemma_last_index, lemma_split_nonempty, push_all, push_chars, push_str,
    split_chars, split_on, starts_with, starts_with_chars, to_chars, trim, trim_chars, words, words_of,
};

use super::{
    ellipsize_chars, ellipsized, escape_chars, escaped_spaces, mono_html, text_to_mono_html, PageEnvironment,
};

verus! {

broadcast use vstd::string::group_string_axioms;

// ── The `users:(("name",pid=N,...))` process field ─────────────────────────

/// Index of the first character at or after `from` that is not an ASCII
/// digit (the end of `s` when there is none).
pub open spec fn digits_end(s: Seq<char>, from: int) -> int
    decreases s.len() - from,
{
    if from < 0 || from >= s.len() {
        s.len() as int
    } else if '0' <= s[from] && s[from] <= '9' {
        digits_end(s, from + 1)
    } else {
        from
    }
}

/// The name and pid of the first process in an `ss` process field.
pub open spec fn ss_process(t: Seq<char>) -> Option<(Seq<char>, nat)> {
    match find_sub(t, "(\""@, 0) {
        None => None,
        Some(a) => match find_sub(t, "\""@, a + 2) {
            None => None,
            Some(name_end) => match find_sub(t, ",pid="@, name_end) {
                None => None,
                Some(c) => {
                    let pid_start = c + 5;
                    match parse_u32_radix(t.subrange(pid_start, digits_end(t, pid_start)), 10) {
                        None => None,
                        Some(pid) => Some((t.subrange(a + 2, name_end), pid)),
                    }
                },
            },
        },
    }
}

fn digits_end_chars(v: &[char], from: usize) -> (r: usize)
    requires
        from <= v@.len(),
    ensures
        r == digits_end(v@, from as int),
        from <= r <= v@.len(),
{
    let mut k: usize = from;
    while k < v.len() && '0' <= v[k] && v[k] <= '9'
        invariant
            from <= k <= v@.len(),
            digits_end(v@, from as int) == digits_end(v@, k as int),
        decreases v@.len() - k,
    {
        k = k + 1;
    }
    k
}

/// The first process named in an `ss` process field: its command name and
/// pid.
pub fn first_ss_process(t: &[char]) -> (r: Option<(Vec<char>, u32)>)
    ensures
        match ss_process(t@) {
            Some((name, pid)) => r matches Some((n, p)) && n@ == name && p as nat == pid,
            None => r is None,
        },
{
    proof {
        reveal_strlit("(\"");
        reveal_strlit("\"");
        reveal_strlit(",pid=");
    }
    let n: usize = t.len();
    let open = to_chars("(\"");
    let quote = to_chars("\"");
    let marker = to_chars(",pid=");
    let a = match find_sub_chars(t, open.as_slice(), 0) {
        Some(a) => a,
        None => return None,
    };
    proof {
        lemma_find_sub(t@, open@, 0);
    }
    let name_end = match find_sub_chars(t, quote.as_slice(), a + 2) {
        Some(e) => e,
        None => return None,
    };
    proof {
        lemma_find_sub(t@, quote@, a + 2);
    }
    let c = match find_sub_chars(t, marker.as_slice(), name_end) {
        Some(c) => c,
        None => return None,
    };
    proof {
        lemma_find_sub(t@, marker@, name_end as int);
    }
    let pid_start = c + 5;
    let pid_end = digits_end_chars(t, pid_start);
    let digits = copy_range(t, pid_start, pid_end);
    match parse_u32_radix_chars(digits.as_slice(), 10) {
        Some(pid) => Some((copy_range(t, a + 2, name_end), pid)),
        None => None,
    }
}



// ── Naming the process behind a socket ─────────────────────────────────────

/// ASCII lower case of one character.
pub open spec fn ascii_lower(c: char) -> char {
    if 'A' <= c && c <= 'Z' {
        ((c as int) + 32) as char
    } else {
        c
    }
}

/// Interpreters whose scripts are named by their command line.
pub open spec fn interpreters() -> Seq<Seq<char>> {
    seq![
        "python"@,
        "python3"@,
        "python2"@,
        "node"@,
        "nodejs"@,
        "ruby"@,
        "perl"@,
        "java"@,
        "php"@,
        "sh"@,
        "bash"@,
        "zsh"@,
        "dash"@,
    ]
}

/// Whether `comm` names an interpreter, ignoring ASCII case.
pub open spec fn is_interpreter(comm: Seq<char>) -> bool {
    interpreters().contains(Seq::new(comm.len(), |i: int| ascii_lower(comm[i])))
}

fn lower_char(c: char) -> (r: char)
    ensures
        r == ascii_lower(c),
{
    if 'A' <= c && c <= 'Z' {
        let b: u8 = c as u8;
        let l: u8 = b + 32;
        let r: char = l as char;
        r
    } else {
        c
    }
}

/// Whether `comm` names an interpreter (see [`is_interpreter`]).
pub fn interpreter(comm: &[char]) -> (r: bool)
    ensures
        r == is_interpreter(comm@),
{
    let mut lower: Vec<char> = Vec::new();
    let mut k: usize = 0;
    while k < comm.len()
        invariant
            k <= comm@.len(),
            lower@ == Seq::new(k as nat, |i: int| ascii_lower(comm@[i])),
        decreases comm@.len() - k,
    {
        lower.push(lower_char(comm[k]));
        k = k + 1;
        assert(lower@ =~= Seq::new(k as nat, |i: int| ascii_lower(comm@[i])));
    }
    let names: [&str; 13] = [
        "python",
        "python3",
        "python2",
        "node",
        "nodejs",
        "ruby",
        "perl",
        "java",
        "php",
        "sh",
        "bash",
        "zsh",
        "dash",
    ];
    let ghost want = Seq::new(comm@.len(), |i: int| ascii_lower(comm@[i]));
    assert(lower@ == want);
    let mut j: usize = 0;
    while j < 13
        invariant
            j <= 13,
            lower@ == want,
            want == Seq::new(comm@.len(), |i: int| ascii_lower(comm@[i])),
            names@.len() == 13,
            forall|m: int| 0 <= m < 13 ==> (#[trigger] names@[m])@ == interpreters()[m],
            forall|m: int| 0 <= m < j ==> interpreters()[m] != want,
        decreases 13 - j,
    {
        let name = to_chars(names[j]);
        if chars_eq(name.as_slice(), lower.as_slice()) {
            assert(interpreters()[j as int] == want);
            assert(interpreters().contains(want));
            return true;
        }
        j = j + 1;
    }
    proof {
        if interpreters().contains(want) {
            let m = choose|m: int| 0 <= m < interpreters().len() && interpreters()[m] == want;
            assert(interpreters()[m] != want);
        }
    }
    false
}

/// `s` without a trailing `.py`.
pub open spec fn without_py(s: Seq<char>) -> Seq<char> {
    if s.len() >= 3 && s.subrange(s.len() - 3, s.len() as int) == ".py"@ {
        s.take(s.len() - 3)
    } else {
        s
    }
}

/// The script an interpreter runs, read from its arguments from index `i`
/// on: the module after `-m`, else the first argument that is not an
/// option, cut to its file name without `.py`; `comm` when there is none.
pub open spec fn script_from(args: Seq<Seq<char>>, i: int, comm: Seq<char>) -> Seq<char>
    decreases args.len() - i,
{
    if i < 0 || i >= args.len() {
        comm
    } else if args[i] == "-m"@ {
        if i + 1 < args.len() {
            after_last(args[i + 1], '/')
        } else {
            script_from(args, i + 1, comm)
        }
    } else if args[i].len() > 0 && args[i][0] == '-' {
        script_from(args, i + 1, comm)
    } else {
        without_py(after_last(args[i], '/'))
    }
}

/// The name shown for process `comm`: for an interpreter with a readable
/// command line (NUL-separated), the script it runs; else `comm`.
pub open spec fn proc_label(comm: Seq<char>, cmdline: Option<Seq<char>>) -> Seq<char> {
    if !is_interpreter(comm) {
        comm
    } else {
        match cmdline {
            None => comm,
            Some(t) => script_from(kept(split_on(t, '\0'), |x: Seq<char>| x.len() > 0), 1, comm),
        }
    }
}

fn without_py_chars(s: Vec<char>) -> (r: Vec<char>)
    ensures
        r@ == without_py(s@),
{
    let n = s.len();
    if n >= 3 && s[n - 3] == '.' && s[n - 2] == 'p' && s[n - 1] == 'y' {
        proof {
            reveal_strlit(".py");
            assert(s@.subrange(n - 3, n as int) =~= ".py"@);
        }
        copy_range(s.as_slice(), 0, n - 3)
    } else {
        proof {
            reveal_strlit(".py");
            if n >= 3 && s@.subrange(n - 3, n as int) == ".py"@ {
                assert(s@.subrange(n - 3, n as int)[0] == '.');
                assert(s@.subrange(n - 3, n as int)[1] == 'p');
                assert(s@.subrange(n - 3, n as int)[2] == 'y');
            }
        }
        s
    }
}

/// The name shown for a listening process (see [`proc_label`]).
pub fn proc_name(comm: &[char], cmdline: Option<&[char]>) -> (r: Vec<char>)
    ensures
        r@ == proc_label(comm@, match cmdline {
            Some(t) => Some(t@),
            None => None,
        }),
{
    let mut own: Vec<char> = Vec::new();
    push_all(&mut own, comm);
    if !interpreter(comm) {
        return own;
    }
    let t = match cmdline {
        Some(t) => t,
        None => return own,
    };
    let pieces = split_chars(t, '\0');
    let ghost keep = |x: Seq<char>| x.len() > 0;
    let mut args: Vec<Vec<char>> = Vec::new();
    let mut k: usize = 0;
    while k < pieces.len()
        invariant
            k <= pieces@.len(),
            keep == (|x: Seq<char>| x.len() > 0),
            char_views(pieces@) == split_on(t@, '\0'),
            char_views(args@) == kept(char_views(pieces@).take(k as int), keep),
        decreases pieces@.len() - k,
    {
        proof {
            let s = char_views(pieces@).take(k as int + 1);
            assert(s.drop_last() =~= char_views(pieces@).take(k as int));
            assert(s.last() == pieces@[k as int]@);
        }
        if pieces[k].len() > 0 {
            let ghost before = char_views(args@);
            args.push(pieces[k].clone());
            assert(char_views(args@) =~= before.push(pieces@[k as int]@));
        }
        k = k + 1;
    }
    assert(char_views(pieces@).take(pieces@.len() as int) =~= char_views(pieces@));
    let ghost a = char_views(args@);
    proof {
        assert(keep =~= (|x: Seq<char>| x.len() > 0));
        assert(proc_label(comm@, Some(t@)) == script_from(a, 1, comm@));
    }
    let mut i: usize = 1;
    while i < args.len()
        invariant
            1 <= i,
            a == char_views(args@),
            own@ == comm@,
            proc_label(comm@, Some(t@)) == script_from(a, 1, comm@),
            cmdline == Some(t),
            script_from(a, 1, comm@) == script_from(a, i as int, comm@),
        decreases args@.len() - i,
    {
        let arg = &args[i];
        assert(arg@ == a[i as int]);
        if arg.len() == 2 && arg[0] == '-' && arg[1] == 'm' {
            proof {
                reveal_strlit("-m");
                assert(a[i as int] =~= "-m"@);
            }
            if i + 1 < args.len() {
                assert(args@[i + 1]@ == a[i + 1]);
                return after_last_chars(args[i + 1].as_slice(), '/');
            }
            i = i + 1;
        } else {
            proof {
                reveal_strlit("-m");
                if a[i as int] == "-m"@ {
                    assert(arg@[0] == '-' && arg@[1] == 'm');
                }
            }
            if arg.len() > 0 && arg[0] == '-' {
                i = i + 1;
            } else {
                let base = after_last_chars(arg.as_slice(), '/');
                return without_py_chars(base);
            }
        }
    }
    own
}

// ── Naming the service behind a port ───────────────────────────────────────

/// `u16::from_str`: a decimal that fits in 16 bits.
pub open spec fn parse_u16(s: Seq<char>) -> Option<nat> {
    match parse_u32_radix(s, 10) {
        Some(v) => if v <= 0xFFFF {
            Some(v)
        } else {
            None
        },
        None => None,
    }
}

fn parse_u16_chars(s: &[char]) -> (r: Option<u16>)
    ensures
        match r {
            Some(v) => parse_u16(s@) == Some(v as nat),
            None => parse_u16(s@) is None,
        },
{
    match parse_u32_radix_chars(s, 10) {
        Some(v) => if v <= 0xFFFF {
            Some(v as u16)
        } else {
            None
        },
        None => None,
    }
}

/// The port of an `ip:port` address: the trimmed text after its last `:`.
pub open spec fn port_of(addr: Seq<char>) -> Option<nat> {
    match last_index(addr, ':') {
        Some(k) => parse_u16(trim(addr.skip(k + 1))),
        None => None,
    }
}

/// Well-known daemons by the port they listen on.
pub open spec fn daemon_for(port: nat) -> Option<Seq<char>> {
    if port == 22 {
        Some("sshd"@)
    } else if port == 25 || port == 465 || port == 587 {
        Some("smtpd"@)
    } else if port == 53 {
        Some("named"@)
    } else if port == 111 {
        Some("rpcbind"@)
    } else if port == 139 || port == 445 {
        Some("smbd"@)
    } else if port == 143 || port == 993 {
        Some("imapd"@)
    } else if port == 631 {
        Some("cupsd"@)
    } else if port == 995 {
        Some("pop3d"@)
    } else if port == 3306 {
        Some("mysqld"@)
    } else if port == 5432 {
        Some("postgres"@)
    } else if port == 6379 {
        Some("redis"@)
    } else if port == 11211 {
        Some("memcached"@)
    } else if port == 27017 {
        Some("mongod"@)
    } else {
        None
    }
}

fn daemon_name(port: u16) -> (r: Option<&'static str>)
    ensures
        match daemon_for(port as nat) {
            Some(n) => r matches Some(x) && x@ == n,
            None => r is None,
        },
{
    if port == 22 {
        Some("sshd")
    } else if port == 25 || port == 465 || port == 587 {
        Some("smtpd")
    } else if port == 53 {
        Some("named")
    } else if port == 111 {
        Some("rpcbind")
    } else if port == 139 || port == 445 {
        Some("smbd")
    } else if port == 143 || port == 993 {
        Some("imapd")
    } else if port == 631 {
        Some("cupsd")
    } else if port == 995 {
        Some("pop3d")
    } else if port == 3306 {
        Some("mysqld")
    } else if port == 5432 {
        Some("postgres")
    } else if port == 6379 {
        Some("redis")
    } else if port == 11211 {
        Some("memcached")
    } else if port == 27017 {
        Some("mongod")
    } else {
        None
    }
}

/// The service an `/etc/services` line names for a TCP `port`: its first
/// word, when its second word is `<port>/tcp`. Text after `#` is a comment.
pub open spec fn line_service(line: Seq<char>, port: nat) -> Option<Seq<char>> {
    let w = words(split_on(line, '#')[0]);
    if w.len() < 2 {
        None
    } else {
        match find_char(w[1], '/') {
            None => None,
            Some(j) => if w[1].skip(j + 1) == "tcp"@ && parse_u16(w[1].take(j)) == Some(port) {
                Some(w[0])
            } else {
                None
            },
        }
    }
}

/// The first of `lines` that names a service for `port`.
pub open spec fn service_in(lines: Seq<Seq<char>>, port: nat) -> Option<Seq<char>>
    decreases lines.len(),
{
    if lines.len() == 0 {
        None
    } else {
        match line_service(lines[0], port) {
            Some(n) => Some(n),
            None => service_in(lines.drop_first(), port),
        }
    }
}

/// The service listening on the port of `addr`: a well-known daemon, else
/// the first matching line of the services table.
pub open spec fn service_for(addr: Seq<char>, services: Seq<char>) -> Option<Seq<char>> {
    match port_of(addr) {
        None => None,
        Some(p) => match daemon_for(p) {
            Some(n) => Some(n),
            None => service_in(split_on(services, '\n'), p),
        },
    }
}

fn line_service_chars(line: &[char], port: u16) -> (r: Option<Vec<char>>)
    ensures
        match line_service(line@, port as nat) {
            Some(n) => r matches Some(x) && x@ == n,
            None => r is None,
        },
{
    let parts = split_chars(line, '#');
    proof {
        lemma_split_nonempty(line@, '#');
    }
    let w = words_of(parts[0].as_slice());
    if w.len() < 2 {
        return None;
    }
    let pp = &w[1];
    match find_char_from(pp.as_slice(), 0, '/') {
        None => {
            assert(pp@.skip(0) =~= pp@);
            None
        },
        Some(j) => {
            assert(pp@.skip(0) =~= pp@);
            proof {
                lemma_find_char(pp@, '/');
            }
            let plen: usize = pp.len();
            assert(j < plen);
            let proto = copy_range(pp.as_slice(), j + 1, plen);
            let num = copy_range(pp.as_slice(), 0, j);
            assert(proto@ =~= pp@.skip(j + 1));
            assert(num@ =~= pp@.take(j as int));
            let tcp = to_chars("tcp");
            if chars_eq(proto.as_slice(), tcp.as_slice()) {
                match parse_u16_chars(num.as_slice()) {
                    Some(v) => if v == port {
                        Some(w[0].clone())
                    } else {
                        None
                    },
                    None => None,
                }
            } else {
                None
            }
        },
    }
}

/// The service listening on the port of `addr` (see [`service_for`]).
pub fn service_for_port(addr: &[char], services: &[char]) -> (r: Option<Vec<char>>)
    ensures
        match service_for(addr@, services@) {
            Some(n) => r matches Some(x) && x@ == n,
            None => r is None,
        },
{
    let n: usize = addr.len();
    let k = match last_index_chars(addr, ':') {
        Some(k) => k,
        None => return None,
    };
    proof {
        lemma_last_index(addr@, ':');
    }
    let text = copy_range(addr, k + 1, n);
    assert(text@ =~= addr@.skip(k + 1));
    let trimmed = trim_chars(text.as_slice());
    let port = match parse_u16_chars(trimmed.as_slice()) {
        Some(p) => p,
        None => return None,
    };
    if let Some(n) = daemon_name(port) {
        return Some(to_chars(n));
    }
    let lines = split_chars(services, '\n');
    let ghost all = split_on(services@, '\n');
    let mut i: usize = 0;
    assert(all.skip(0) =~= all);
    assert(service_for(addr@, services@) == service_in(all, port as nat));
    while i < lines.len()
        invariant
            i <= lines@.len(),
            all == split_on(services@, '\n'),
            service_for(addr@, services@) == service_in(all, port as nat),
            char_views(lines@) == all,
            service_in(all, port as nat) == service_in(all.skip(i as int), port as nat),
        decreases lines@.len() - i,
    {
        assert(all.skip(i as int)[0] == lines@[i as int]@);
        assert(all.skip(i as int).drop_first() =~= all.skip(i + 1));
        if let Some(n) = line_service_chars(lines[i].as_slice(), port) {
            return Some(n);
        }
        i = i + 1;
    }
    None
}


// ── The page ───────────────────────────────────────────────────────────────

/// Whether every character of `s` is whitespace.
pub open spec fn all_space(s: Seq<char>) -> bool {
    forall|i: int| 0 <= i < s.len() ==> is_space(#[trigger] s[i])
}

/// A line of `ss` output that describes a socket: not blank, not a header,
/// and with at least five words.
pub open spec fn socket_line(line: Seq<char>) -> bool {
    &&& !all_space(line)
    &&& !starts_with(line, "State"@)
    &&& !starts_with(line, "Netid"@)
    &&& words(line).len() >= 5
}

/// The socket lines of `ss` output, in order.
pub open spec fn socket_lines(text: Seq<char>) -> Seq<Seq<char>> {
    kept(split_on(text, '\n'), |l: Seq<char>| socket_line(l))
}

/// The process of a socket line: the first one in its process column
/// (the words from the sixth on).
pub open spec fn process_of(line: Seq<char>) -> Option<(Seq<char>, nat)> {
    if words(line).len() > 5 {
        ss_process(join_with(words(line).skip(5), " "@))
    } else {
        None
    }
}

/// The command line recorded for `pid`.
pub open spec fn cmdline_for(cmdlines: Seq<(u32, String)>, pid: nat) -> Option<Seq<char>>
    decreases cmdlines.len(),
{
    if cmdlines.len() == 0 {
        None
    } else if cmdlines[0].0 as nat == pid {
        Some(cmdlines[0].1@)
    } else {
        cmdline_for(cmdlines.drop_first(), pid)
    }
}

/// One socket as (name, address, whether the name was inferred from the
/// port): the process when `ss` shows one, else the port's service, else `-`.
pub open spec fn row_of(line: Seq<char>, env: PageEnvironment) -> (Seq<char>, Seq<char>, bool) {
    let addr = words(line)[3];
    match process_of(line) {
        Some((comm, pid)) => (proc_label(comm, cmdline_for(env.cmdlines@, pid)), addr, false),
        None => (
            match service_for(addr, env.services_text@) {
                Some(n) => n,
                None => "-"@,
            },
            addr,
            true,
        ),
    }
}

/// The rows of the page.
pub open spec fn rows_of(text: Seq<char>, env: PageEnvironment) -> Seq<(Seq<char>, Seq<char>, bool)> {
    Seq::new(socket_lines(text).len(), |i: int| row_of(socket_lines(text)[i], env))
}

/// The address and port of `ip:port` (no address without a `:`).
pub open spec fn split_addr(a: Seq<char>) -> (Seq<char>, Seq<char>) {
    match last_index(a, ':') {
        Some(k) => (a.take(k), a.skip(k + 1)),
        None => (Seq::empty(), a),
    }
}

/// `s` padded with spaces on the right to `w` characters.
pub open spec fn pad_right(s: Seq<char>, w: nat) -> Seq<char> {
    if s.len() < w {
        s + crate::text::repeat(" "@, (w - s.len()) as nat)
    } else {
        s
    }
}

/// The address column of a row: `ip:port`, the port padded to 5.
pub open spec fn addr_text(a: Seq<char>) -> Seq<char> {
    split_addr(a).0 + ":"@ + pad_right(split_addr(a).1, 5)
}

/// `a + b`, saturating at the machine word.
pub open spec fn sat_add(a: nat, b: nat) -> nat {
    if a + b > usize::MAX {
        usize::MAX as nat
    } else {
        a + b
    }
}

/// The larger of two numbers.
pub open spec fn max_nat(a: nat, b: nat) -> nat {
    if a >= b {
        a
    } else {
        b
    }
}

/// The widest address column.
pub open spec fn addr_width(rows: Seq<(Seq<char>, Seq<char>, bool)>) -> nat
    decreases rows.len(),
{
    if rows.len() == 0 {
        0
    } else {
        max_nat(addr_width(rows.drop_last()), addr_text(rows.last().1).len())
    }
}

/// The widest name once cut to `budget`.
pub open spec fn name_width(rows: Seq<(Seq<char>, Seq<char>, bool)>, budget: nat) -> nat
    decreases rows.len(),
{
    if rows.len() == 0 {
        0
    } else {
        max_nat(name_width(rows.drop_last(), budget), ellipsized(rows.last().0, budget).len())
    }
}

/// Room left for names: what `min_width` leaves beside the addresses and a
/// two-column gap, but never under 10.
pub open spec fn name_budget(min_width: nat, rows: Seq<(Seq<char>, Seq<char>, bool)>) -> nat {
    max_nat(10, sat_sub(min_width, sat_add(2, addr_width(rows))))
}

/// The page width: `min_width`, or wider when names and addresses need it.
pub open spec fn page_width(min_width: nat, rows: Seq<(Seq<char>, Seq<char>, bool)>) -> nat {
    max_nat(min_width, sat_add(sat_add(name_width(rows, name_budget(min_width, rows)), 2), addr_width(rows)))
}

/// One row of the page: the name (red for an address not on loopback, dim
/// when inferred from the port), a gap, and the address pushed to the right
/// edge.
pub open spec fn row_html(row: (Seq<char>, Seq<char>, bool), width: nat, budget: nat) -> Seq<char> {
    let name = ellipsized(row.0, budget);
    let addr = addr_text(row.1);
    let exposed = !starts_with(split_addr(row.1).0, "127."@);
    let class = if exposed {
        "warn"@
    } else if row.2 {
        "label"@
    } else {
        "active"@
    };
    let addr_html = if exposed {
        "<span class=\"warn\">"@ + escaped_spaces(addr) + "</span>"@
    } else {
        escaped_spaces(addr)
    };
    "<span class=\""@ + class + "\">"@ + escaped_spaces(name) + "</span>"@ + nbsp(
        sat_sub(width, sat_add(name.len(), addr.len())),
    ) + addr_html
}

/// Only loopback listeners are safe: a row whose address part (before the
/// last `:`) starts with `127.` shows its name as active (or dim when
/// inferred) and its address plain at the end; any other row is a warning,
/// its name and its address both in the warning class.
pub proof fn lemma_exposed_rows_warn(row: (Seq<char>, Seq<char>, bool), width: nat, budget: nat)
    ensures
        ({
            let html = row_html(row, width, budget);
            let addr = escaped_spaces(addr_text(row.1));
            let warn_open = "<span class=\"warn\">"@;
            &&& starts_with(split_addr(row.1).0, "127."@) ==> {
                &&& (starts_with(html, "<span class=\"active\">"@) || starts_with(html, "<span class=\"label\">"@))
                &&& !starts_with(html, warn_open)
                &&& html.len() >= addr.len() && html.skip(html.len() - addr.len()) == addr
            }
            &&& !starts_with(split_addr(row.1).0, "127."@) ==> {
                &&& starts_with(html, warn_open)
                &&& html.len() >= warn_open.len() + addr.len() + 7
                &&& html.skip(html.len() - (warn_open.len() + addr.len() + 7)) == warn_open + addr + "</span>"@
            }
        }),
{
    reveal_strlit("<span class=\"warn\">");
    reveal_strlit("<span class=\"active\">");
    reveal_strlit("<span class=\"label\">");
    reveal_strlit("<span class=\"");
    reveal_strlit("\">");
    reveal_strlit("</span>");
    reveal_strlit("warn");
    reveal_strlit("active");
    reveal_strlit("label");
    let name = ellipsized(row.0, budget);
    let addr_t = addr_text(row.1);
    let addr = escaped_spaces(addr_t);
    let exposed = !starts_with(split_addr(row.1).0, "127."@);
    let class = if exposed {
        "warn"@
    } else if row.2 {
        "label"@
    } else {
        "active"@
    };
    let addr_html = if exposed {
        "<span class=\"warn\">"@ + addr + "</span>"@
    } else {
        addr
    };
    let head = "<span class=\""@ + class + "\">"@;
    let mid = escaped_spaces(name) + "</span>"@ + nbsp(sat_sub(width, sat_add(name.len(), addr_t.len())));
    let html = row_html(row, width, budget);
    assert(html =~= head + (mid + addr_html));
    assert(html.take(head.len() as int) =~= head);
    assert(html.skip(html.len() - addr_html.len()) =~= addr_html);
    if exposed {
        assert(head =~= "<span class=\"warn\">"@);
    } else {
        assert(head[13] != 'w');
        assert(html.take(20)[13] == head[13]);
        if row.2 {
            assert(head =~= "<span class=\"label\">"@);
        } else {
            assert(head =~= "<span class=\"active\">"@);
        }
    }
}

/// The connections page and its width.
pub open spec fn connections_page(rows: Seq<(Seq<char>, Seq<char>, bool)>, min_width: nat) -> (Seq<char>, nat) {
    if rows.len() == 0 {
        (mono_html("no listening sockets"@), max_nat(min_width, 20))
    } else {
        let width = page_width(min_width, rows);
        let budget = name_budget(min_width, rows);
        (join_with(Seq::new(rows.len(), |i: int| row_html(rows[i], width, budget)), "<br>"@), width)
    }
}

/// A row as exec values.
pub open spec fn row_view(r: (Vec<char>, Vec<char>, bool)) -> (Seq<char>, Seq<char>, bool) {
    (r.0@, r.1@, r.2)
}

/// The rows as values.
pub open spec fn row_views(rows: Seq<(Vec<char>, Vec<char>, bool)>) -> Seq<(Seq<char>, Seq<char>, bool)> {
    Seq::new(rows.len(), |i: int| row_view(rows[i]))
}

fn is_all_space(v: &[char]) -> (r: bool)
    ensures
        r == all_space(v@),
{
    let mut k: usize = 0;
    while k < v.len()
        invariant
            k <= v@.len(),
            forall|m: int| 0 <= m < k ==> is_space(#[trigger] v@[m]),
        decreases v@.len() - k,
    {
        if !is_space_char(v[k]) {
            return false;
        }
        k = k + 1;
    }
    true
}

fn join_words(w: &Vec<Vec<char>>, from: usize) -> (r: Vec<char>)
    requires
        from <= w@.len(),
    ensures
        r@ == join_with(char_views(w@).skip(from as int), " "@),
{
    let mut out: Vec<char> = Vec::new();
    let mut k: usize = from;
    while k < w.len()
        invariant
            from <= k <= w@.len(),
            out@ == join_with(char_views(w@).subrange(from as int, k as int), " "@),
        decreases w@.len() - k,
    {
        let ghost prev = out@;
        if k > from {
            out.push(' ');
            proof {
                reveal_strlit(" ");
                assert(out@ =~= prev + " "@);
            }
        }
        push_all(&mut out, w[k].as_slice());
        proof {
            let t = char_views(w@).subrange(from as int, k + 1);
            assert(t.drop_last() =~= char_views(w@).subrange(from as int, k as int));
            assert(t.last() == w@[k as int]@);
            if k == from {
                assert(out@ =~= t[0]);
            } else {
                assert(out@ =~= prev + " "@ + t.last());
            }
        }
        k = k + 1;
    }
    assert(char_views(w@).subrange(from as int, w@.len() as int) =~= char_views(w@).skip(from as int));
    out
}

fn cmdline_lookup(cmdlines: &Vec<(u32, String)>, pid: u32) -> (r: Option<Vec<char>>)
    ensures
        match cmdline_for(cmdlines@, pid as nat) {
            Some(t) => r matches Some(x) && x@ == t,
            None => r is None,
        },
{
    let mut k: usize = 0;
    assert(cmdlines@.skip(0) =~= cmdlines@);
    while k < cmdlines.len()
        invariant
            k <= cmdlines@.len(),
            cmdline_for(cmdlines@, pid as nat) == cmdline_for(cmdlines@.skip(k as int), pid as nat),
        decreases cmdlines@.len() - k,
    {
        assert(cmdlines@.skip(k as int)[0] == cmdlines@[k as int]);
        assert(cmdlines@.skip(k as int).drop_first() =~= cmdlines@.skip(k + 1));
        if cmdlines[k].0 == pid {
            return Some(to_chars(cmdlines[k].1.as_str()));
        }
        k = k + 1;
    }
    None
}

/// The row of one socket line (see [`row_of`]).
fn socket_row(line: &[char], w: &Vec<Vec<char>>, env: &PageEnvironment) -> (r: (Vec<char>, Vec<char>, bool))
    requires
        char_views(w@) == words(line@),
        w@.len() >= 5,
    ensures
        row_view(r) == row_of(line@, *env),
{
    let addr = w[3].clone();
    if w.len() > 5 {
        let field = join_words(w, 5);
        if let Some((comm, pid)) = first_ss_process(field.as_slice()) {
            let cmd = cmdline_lookup(&env.cmdlines, pid);
            let name = match &cmd {
                Some(t) => proc_name(comm.as_slice(), Some(t.as_slice())),
                None => proc_name(comm.as_slice(), None),
            };
            return (name, addr, false);
        }
    }
    let services = to_chars(env.services_text.as_str());
    let name = match service_for_port(addr.as_slice(), services.as_slice()) {
        Some(n) => n,
        None => to_chars("-"),
    };
    (name, addr, true)
}

/// The rows of the connections page, one per socket line of the `ss`
/// output (see [`rows_of`]).
pub fn connection_rows(text: &str, env: &PageEnvironment) -> (r: Vec<(Vec<char>, Vec<char>, bool)>)
    ensures
        row_views(r@) == rows_of(text@, *env),
{
    let chars = to_chars(text);
    let lines = split_chars(chars.as_slice(), '\n');
    let ghost keep = |l: Seq<char>| socket_line(l);
    let ghost pieces = split_on(text@, '\n');
    let mut rows: Vec<(Vec<char>, Vec<char>, bool)> = Vec::new();
    let ghost mut chosen: Seq<Seq<char>> = Seq::empty();
    let mut i: usize = 0;
    while i < lines.len()
        invariant
            i <= lines@.len(),
            keep == (|l: Seq<char>| socket_line(l)),
            pieces == split_on(text@, '\n'),
            char_views(lines@) == pieces,
            chosen == kept(pieces.take(i as int), keep),
            row_views(rows@) == Seq::new(chosen.len(), |k: int| row_of(chosen[k], *env)),
        decreases lines@.len() - i,
    {
        let line = lines[i].as_slice();
        assert(line@ == pieces[i as int]);
        proof {
            let t = pieces.take(i as int + 1);
            assert(t.drop_last() =~= pieces.take(i as int));
            assert(t.last() == pieces[i as int]);
        }
        let blank = is_all_space(line);
        let state = starts_with_chars(line, "State");
        let netid = starts_with_chars(line, "Netid");
        let w = words_of(line);
        if !blank && !state && !netid && w.len() >= 5 {
            let row = socket_row(line, &w, env);
            let ghost before = row_views(rows@);
            let ghost rv = row_view(row);
            rows.push(row);
            proof {
                assert(row_views(rows@) =~= before.push(rv));
                chosen = chosen.push(line@);
                assert(row_views(rows@) =~= Seq::new(chosen.len(), |k: int| row_of(chosen[k], *env)));
            }
        }
        i = i + 1;
    }
    proof {
        assert(pieces.take(pieces.len() as int) =~= pieces);
        assert(keep =~= (|l: Seq<char>| socket_line(l)));
    }
    rows
}


fn split_addr_chars(a: &[char]) -> (r: (Vec<char>, Vec<char>))
    ensures
        (r.0@, r.1@) == split_addr(a@),
{
    let n: usize = a.len();
    match last_index_chars(a, ':') {
        Some(k) => {
            proof {
                lemma_last_index(a@, ':');
            }
            let ip = copy_range(a, 0, k);
            let port = copy_range(a, k + 1, n);
            assert(ip@ =~= a@.take(k as int));
            assert(port@ =~= a@.skip(k + 1));
            (ip, port)
        },
        None => {
            let port = copy_range(a, 0, n);
            assert(port@ =~= a@);
            (Vec::new(), port)
        },
    }
}

fn addr_column(a: &[char]) -> (r: Vec<char>)
    ensures
        r@ == addr_text(a@),
{
    let (ip, port) = split_addr_chars(a);
    let mut out: Vec<char> = Vec::new();
    push_all(&mut out, ip.as_slice());
    out.push(':');
    push_all(&mut out, port.as_slice());
    let ghost head = ip@ + ":"@;
    proof {
        reveal_strlit(":");
        reveal_strlit(" ");
        assert(out@ =~= head + port@);
    }
    let mut k: usize = port.len();
    while k < 5
        invariant
            port@.len() <= k <= 5 || (k == port@.len() && port@.len() >= 5),
            out@ == head + port@ + crate::text::repeat(" "@, (k - port@.len()) as nat),
        decreases 5 - k,
    {
        out.push(' ');
        proof {
            reveal_strlit(" ");
            assert(crate::text::repeat(" "@, (k + 1 - port@.len()) as nat) =~= crate::text::repeat(
                " "@,
                (k - port@.len()) as nat,
            ) + " "@);
        }
        k = k + 1;
    }
    proof {
        if port@.len() >= 5 {
            assert(crate::text::repeat(" "@, 0) =~= Seq::<char>::empty());
            assert(out@ =~= head + port@);
        }
    }
    out
}

fn sat_add_exec(a: usize, b: usize) -> (r: usize)
    ensures
        r == sat_add(a as nat, b as nat),
{
    if a > usize::MAX - b {
        usize::MAX
    } else {
        a + b
    }
}

fn sat_sub_exec(a: usize, b: usize) -> (r: usize)
    ensures
        r == sat_sub(a as nat, b as nat),
{
    if a > b {
        a - b
    } else {
        0
    }
}

fn push_row_html(
    out: &mut String,
    row: &(Vec<char>, Vec<char>, bool),
    name: &[char],
    addr: &[char],
    width: usize,
    budget: usize,
)
    requires
        name@ == ellipsized(row.0@, budget as nat),
        addr@ == addr_text(row.1@),
    ensures
        final(out)@ == old(out)@ + row_html(row_view(*row), width as nat, budget as nat),
{
    let (ip, _port) = split_addr_chars(row.1.as_slice());
    let exposed = !starts_with_chars(ip.as_slice(), "127.");
    push_str(out, "<span class=\"");
    if exposed {
        push_str(out, "warn");
    } else if row.2 {
        push_str(out, "label");
    } else {
        push_str(out, "active");
    }
    push_str(out, "\">");
    let name_html = escape_chars(name, true);
    push_str(out, name_html.as_str());
    push_str(out, "</span>");
    let gap = sat_sub_exec(width, sat_add_exec(name.len(), addr.len()));
    push_nbsp(out, gap);
    let addr_html = escape_chars(addr, true);
    if exposed {
        push_str(out, "<span class=\"warn\">");
        push_str(out, addr_html.as_str());
        push_str(out, "</span>");
    } else {
        push_str(out, addr_html.as_str());
    }
    assert(out@ =~= old(out)@ + row_html(row_view(*row), width as nat, budget as nat));
}

/// Lays out the rows of the connections page; returns the HTML and the
/// page width.
fn format_rows(rows: &Vec<(Vec<char>, Vec<char>, bool)>, min_width: usize) -> (r: (String, usize))
    ensures
        (r.0@, r.1 as nat) == connections_page(row_views(rows@), min_width as nat),
{
    let ghost rs = row_views(rows@);
    if rows.len() == 0 {
        let html = text_to_mono_html("no listening sockets");
        let width: usize = if min_width >= 20 {
            min_width
        } else {
            20
        };
        return (html, width);
    }
    let mut addrs: Vec<Vec<char>> = Vec::new();
    let mut aw: usize = 0;
    let mut k: usize = 0;
    while k < rows.len()
        invariant
            k <= rows@.len(),
            rs == row_views(rows@),
            addrs@.len() == k,
            forall|m: int| 0 <= m < k ==> (#[trigger] addrs@[m])@ == addr_text(rs[m].1),
            aw == addr_width(rs.take(k as int)),
        decreases rows@.len() - k,
    {
        let col = addr_column(rows[k].1.as_slice());
        proof {
            let t = rs.take(k as int + 1);
            assert(t.drop_last() =~= rs.take(k as int));
            assert(t.last() == rs[k as int]);
        }
        if col.len() > aw {
            aw = col.len();
        }
        addrs.push(col);
        k = k + 1;
    }
    assert(rs.take(rs.len() as int) =~= rs);
    let room = sat_sub_exec(min_width, sat_add_exec(2, aw));
    let budget: usize = if room > 10 {
        room
    } else {
        10
    };
    assert(budget == name_budget(min_width as nat, rs));
    let mut names: Vec<Vec<char>> = Vec::new();
    let mut nw: usize = 0;
    k = 0;
    while k < rows.len()
        invariant
            k <= rows@.len(),
            rs == row_views(rows@),
            names@.len() == k,
            forall|m: int| 0 <= m < k ==> (#[trigger] names@[m])@ == ellipsized(rs[m].0, budget as nat),
            nw == name_width(rs.take(k as int), budget as nat),
        decreases rows@.len() - k,
    {
        let name = ellipsize_chars(rows[k].0.as_slice(), budget);
        proof {
            let t = rs.take(k as int + 1);
            assert(t.drop_last() =~= rs.take(k as int));
            assert(t.last() == rs[k as int]);
        }
        if name.len() > nw {
            nw = name.len();
        }
        names.push(name);
        k = k + 1;
    }
    let span = sat_add_exec(sat_add_exec(nw, 2), aw);
    let width: usize = if min_width >= span {
        min_width
    } else {
        span
    };
    assert(width == page_width(min_width as nat, rs));
    let mut out = String::new();
    k = 0;
    while k < rows.len()
        invariant
            k <= rows@.len(),
            rs == row_views(rows@),
            names@.len() == rows@.len(),
            addrs@.len() == rows@.len(),
            forall|m: int| 0 <= m < rows@.len() ==> (#[trigger] addrs@[m])@ == addr_text(rs[m].1),
            forall|m: int| 0 <= m < rows@.len() ==> (#[trigger] names@[m])@ == ellipsized(rs[m].0, budget as nat),
            out@ == join_with(Seq::new(k as nat, |i: int| row_html(rs[i], width as nat, budget as nat)), "<br>"@),
        decreases rows@.len() - k,
    {
        let ghost prev = out@;
        if k > 0 {
            push_str(&mut out, "<br>");
        }
        let ghost mid = out@;
        push_row_html(&mut out, &rows[k], names[k].as_slice(), addrs[k].as_slice(), width, budget);
        proof {
            let line = row_html(rs[k as int], width as nat, budget as nat);
            assert(out@ =~= mid + line);
            let w = Seq::new(k as nat + 1, |i: int| row_html(rs[i], width as nat, budget as nat));
            assert(w.drop_last() =~= Seq::new(k as nat, |i: int| row_html(rs[i], width as nat, budget as nat)));
            if k == 0 {
                assert(out@ =~= w[0]);
            } else {
                assert(out@ =~= prev + "<br>"@ + w.last());
            }
        }
        k = k + 1;
    }
    (out, width)
}

/// Formats `ss -4tlnp` output into the two-column connections page; returns
/// the HTML and the page width.
pub fn format_connections(text: &str, min_width: usize, env: &PageEnvironment) -> (r: (String, usize))
    ensures
        (r.0@, r.1 as nat) == connections_page(rows_of(text@, *env), min_width as nat),
{
    let rows = connection_rows(text, env);
    format_rows(&rows, min_width)
}

} // verus!
