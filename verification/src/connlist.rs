use vstd::prelude::*;
use crate::addr::{ip_to_text, ip_v4_text, ipv4_parse_spec, parse_ipv4};
use crate::metrics::{ConnectionListV1, ConnectionListV1Conn1};
use crate::procstat::{lemma_split_on_nonempty, split_on};

verus! {

/// How many addresses one host lookup asks for at most.
pub const HOST_LOOKUP_MAX: usize = 20;

/// The position of the first character at or after `i` that is not a space,
/// or the length of the text.
pub open spec fn skip_sp(s: Seq<char>, i: int) -> int
    decreases s.len() - i,
{
    if i >= s.len() {
        s.len() as int
    } else if s[i] == ' ' {
        skip_sp(s, i + 1)
    } else {
        i
    }
}

/// The position of the first space at or after `i`, or the length of the
/// text.
pub open spec fn word_end(s: Seq<char>, i: int) -> int
    decreases s.len() - i,
{
    if i >= s.len() {
        s.len() as int
    } else if s[i] == ' ' {
        i
    } else {
        word_end(s, i + 1)
    }
}

/// The first two words of a line, words being runs of characters other than
/// the space; `None` where the line has fewer than two.
pub open spec fn first_two_words(s: Seq<char>) -> Option<(Seq<char>, Seq<char>)> {
    let a = skip_sp(s, 0);
    let e1 = word_end(s, a);
    let b = skip_sp(s, e1);
    let e2 = word_end(s, b);
    if b < s.len() {
        Some((s.subrange(a, e1), s.subrange(b, e2)))
    } else {
        None
    }
}

/// The entry of a line of the host database: its address and first name,
/// where the line has both and the address reads as an IPv4 address.
pub open spec fn host_entry(line: Seq<char>) -> Option<(u32, Seq<char>)> {
    match first_two_words(line) {
        Some((a, n)) => match ipv4_parse_spec(a) {
            Some(ip) => Some((ip, n)),
            None => None,
        },
        None => None,
    }
}

/// The entries of lines, in order.
pub open spec fn host_entries(lines: Seq<Seq<char>>) -> Seq<(u32, Seq<char>)>
    decreases lines.len(),
{
    if lines.len() == 0 {
        Seq::empty()
    } else {
        host_entries(lines.drop_last()) + match host_entry(lines.last()) {
            Some(e) => seq![e],
            None => Seq::empty(),
        }
    }
}

/// The entries of the text of a host lookup, one line each.
pub open spec fn getent_entries(text: Seq<char>) -> Seq<(u32, Seq<char>)> {
    host_entries(split_on(text, '\n'))
}

/// The name that the entries give an address: that of the last entry for
/// it.
pub open spec fn lookup_name(entries: Seq<(u32, Seq<char>)>, ip: u32) -> Option<Seq<char>>
    decreases entries.len(),
{
    if entries.len() == 0 {
        None
    } else if entries.last().0 == ip {
        Some(entries.last().1)
    } else {
        lookup_name(entries.drop_last(), ip)
    }
}

fn skip_spaces(s: &str, i: usize) -> (r: usize)
    requires
        i <= s@.len(),
    ensures
        r == skip_sp(s@, i as int),
        i <= r <= s@.len(),
{
    let n = s.unicode_len();
    let mut j = i;
    while j < n && s.get_char(j) == ' '
        invariant
            i <= j <= n,
            n == s@.len(),
            skip_sp(s@, j as int) == skip_sp(s@, i as int),
        decreases n - j,
    {
        j = j + 1;
    }
    j
}

fn find_word_end(s: &str, i: usize) -> (r: usize)
    requires
        i <= s@.len(),
    ensures
        r == word_end(s@, i as int),
        i <= r <= s@.len(),
{
    let n = s.unicode_len();
    let mut j = i;
    while j < n && s.get_char(j) != ' '
        invariant
            i <= j <= n,
            n == s@.len(),
            word_end(s@, j as int) == word_end(s@, i as int),
        decreases n - j,
    {
        j = j + 1;
    }
    j
}

/// The first two words of a line.
pub fn first_two(s: &str) -> (r: Option<(String, String)>)
    ensures
        match first_two_words(s@) {
            Some((a, n)) => r matches Some((x, y)) && x@ == a && y@ == n,
            None => r is None,
        },
{
    let n = s.unicode_len();
    let a = skip_spaces(s, 0);
    let e1 = find_word_end(s, a);
    let b = skip_spaces(s, e1);
    let e2 = find_word_end(s, b);
    if b < n {
        Some((String::from_str(s.substring_char(a, e1)), String::from_str(s.substring_char(b, e2))))
    } else {
        None
    }
}

/// The entry of one line of the host database.
pub fn parse_host_line(line: &str) -> (r: Option<(u32, String)>)
    ensures
        match host_entry(line@) {
            Some((ip, n)) => r matches Some((x, y)) && x == ip && y@ == n,
            None => r is None,
        },
{
    match first_two(line) {
        Some((a, n)) => match parse_ipv4(a.as_str()) {
            Some(ip) => Some((ip, n)),
            None => None,
        },
        None => None,
    }
}

/// The entries of the text of a host lookup, such as `getent hosts` prints:
/// one line each, address then names.
pub fn parse_getent_hosts(text: &str) -> (r: Vec<(u32, String)>)
    ensures
        r@.len() == getent_entries(text@).len(),
        forall|k: int|
            0 <= k < r@.len() ==> (#[trigger] r@[k]).0 == getent_entries(text@)[k].0 && r@[k].1@
                == getent_entries(text@)[k].1,
{
    let n = text.unicode_len();
    let mut r: Vec<(u32, String)> = Vec::new();
    let mut start: usize = 0;
    let mut i: usize = 0;
    proof {
        assert(text@.subrange(0, 0) =~= Seq::<char>::empty());
        assert(split_on(Seq::<char>::empty(), '\n').drop_last() =~= Seq::<Seq<char>>::empty());
    }
    while i < n
        invariant
            0 <= start <= i <= n,
            n == text@.len(),
            split_on(text@.subrange(0, i as int), '\n').last() == text@.subrange(start as int, i as int),
            r@.len() == host_entries(split_on(text@.subrange(0, i as int), '\n').drop_last()).len(),
            forall|k: int|
                0 <= k < r@.len() ==> (#[trigger] r@[k]).0 == host_entries(
                    split_on(text@.subrange(0, i as int), '\n').drop_last(),
                )[k].0 && r@[k].1@ == host_entries(split_on(text@.subrange(0, i as int), '\n').drop_last())[k].1,
        decreases n - i,
    {
        let c = text.get_char(i);
        let ghost pre = text@.subrange(0, i as int);
        let ghost q = text@.subrange(0, i + 1);
        proof {
            assert(q.drop_last() =~= pre);
            assert(q.last() == c);
            lemma_split_on_nonempty(pre, '\n');
        }
        if c == '\n' {
            let ghost line = text@.subrange(start as int, i as int);
            let e = parse_host_line(text.substring_char(start, i));
            let ghost before = r@;
            match e {
                Some(x) => {
                    r.push(x);
                },
                None => {},
            }
            proof {
                let sp = split_on(pre, '\n');
                assert(split_on(q, '\n') == sp.push(Seq::<char>::empty()));
                assert(split_on(q, '\n').drop_last() =~= sp);
                assert(sp.drop_last().push(sp.last()) =~= sp);
                assert(host_entries(sp) == host_entries(sp.drop_last()) + match host_entry(sp.last()) {
                    Some(e) => seq![e],
                    None => Seq::empty(),
                });
            }
            start = i + 1;
            proof {
                assert(text@.subrange(start as int, i + 1) =~= Seq::<char>::empty());
            }
        } else {
            proof {
                let sp = split_on(pre, '\n');
                assert(split_on(q, '\n') == sp.update(sp.len() - 1, sp.last().push(c)));
                assert(split_on(q, '\n').drop_last() =~= sp.drop_last());
                assert(text@.subrange(start as int, i + 1) =~= text@.subrange(start as int, i as int).push(c));
            }
        }
        i = i + 1;
    }
    proof {
        assert(text@.subrange(0, n as int) =~= text@);
        lemma_split_on_nonempty(text@, '\n');
    }
    let e = parse_host_line(text.substring_char(start, n));
    match e {
        Some(x) => {
            r.push(x);
        },
        None => {},
    }
    proof {
        let sp = split_on(text@, '\n');
        assert(sp.drop_last().push(sp.last()) =~= sp);
    }
    r
}

/// Gives each connection the name that the entries give its address, where
/// they give one; other connections keep theirs.
pub fn resolve_names(list: &mut Vec<ConnectionListV1Conn1>, entries: &Vec<(u32, String)>)
    ensures
        final(list)@.len() == old(list)@.len(),
        forall|k: int|
            0 <= k < final(list)@.len() ==> {
                let c = #[trigger] final(list)@[k];
                let o = old(list)@[k];
                &&& c.ip == o.ip
                &&& c.port == o.port
                &&& c.name@ == match lookup_name(entries@.map_values(|e: (u32, String)| (e.0, e.1@)), o.ip) {
                    Some(n) => n,
                    None => o.name@,
                }
            },
{
    let ghost ev = entries@.map_values(|e: (u32, String)| (e.0, e.1@));
    let n = list.len();
    let mut k: usize = 0;
    while k < n
        invariant
            0 <= k <= n,
            n == list@.len(),
            n == old(list)@.len(),
            ev == entries@.map_values(|e: (u32, String)| (e.0, e.1@)),
            forall|j: int|
                0 <= j < n ==> {
                    let c = #[trigger] list@[j];
                    let o = old(list)@[j];
                    &&& c.ip == o.ip
                    &&& c.port == o.port
                    &&& c.name@ == if j < k {
                        match lookup_name(ev, o.ip) {
                            Some(nm) => nm,
                            None => o.name@,
                        }
                    } else {
                        o.name@
                    }
                },
        decreases n - k,
    {
        let ip = list[k].ip;
        let found = find_name(entries, ip);
        match found {
            Some(nm) => {
                let port = list[k].port;
                list.set(k, ConnectionListV1Conn1 { ip, port, name: nm });
            },
            None => {},
        }
        k = k + 1;
    }
}

/// The name that the entries give an address.
fn find_name(entries: &Vec<(u32, String)>, ip: u32) -> (r: Option<String>)
    ensures
        match lookup_name(entries@.map_values(|e: (u32, String)| (e.0, e.1@)), ip) {
            Some(n) => r matches Some(x) && x@ == n,
            None => r is None,
        },
{
    let ghost ev = entries@.map_values(|e: (u32, String)| (e.0, e.1@));
    let mut j = entries.len();
    proof {
        assert(ev.len() == entries@.len());
        assert(ev.take(j as int) =~= ev);
    }
    while j > 0
        invariant
            j <= entries@.len(),
            ev == entries@.map_values(|e: (u32, String)| (e.0, e.1@)),
            lookup_name(ev.take(j as int), ip) == lookup_name(ev, ip),
        decreases j,
    {
        let ghost t = ev.take(j as int);
        proof {
            assert(t.last() == ev[j - 1]);
            assert(t.drop_last() =~= ev.take(j - 1));
        }
        if entries[j - 1].0 == ip {
            return Some(entries[j - 1].1.clone());
        }
        j = j - 1;
    }
    proof {
        assert(ev.take(0) =~= Seq::<(u32, Seq<char>)>::empty());
    }
    None
}

/// The arguments of the host lookup for a list of connections: `hosts`, then
/// the addresses of the first connections, at most `HOST_LOOKUP_MAX` of them.
pub fn getent_args(list: &Vec<ConnectionListV1Conn1>) -> (r: Vec<String>)
    ensures
        r@.len() == 1 + if list@.len() < HOST_LOOKUP_MAX {
            list@.len() as int
        } else {
            HOST_LOOKUP_MAX as int
        },
        r@[0]@ == "hosts"@,
        forall|k: int| 1 <= k < r@.len() ==> (#[trigger] r@[k])@ == ip_v4_text(list@[k - 1].ip),
{
    let mut r: Vec<String> = Vec::new();
    r.push(String::from_str("hosts"));
    let n = if list.len() < HOST_LOOKUP_MAX {
        list.len()
    } else {
        HOST_LOOKUP_MAX
    };
    let mut k: usize = 0;
    while k < n
        invariant
            0 <= k <= n,
            n <= list@.len(),
            r@.len() == 1 + k,
            r@[0]@ == "hosts"@,
            forall|j: int| 1 <= j < r@.len() ==> (#[trigger] r@[j])@ == ip_v4_text(list@[j - 1].ip),
        decreases n - k,
    {
        r.push(ip_to_text(list[k].ip));
        k = k + 1;
    }
    r
}

/// Names the connections of a list by the text of a host lookup.
pub fn resolve_connection_names(list: &mut ConnectionListV1, getent_out: &str)
    ensures
        final(list).ingest_name == old(list).ingest_name,
        final(list).list@.len() == old(list).list@.len(),
        forall|k: int|
            0 <= k < final(list).list@.len() ==> {
                let c = #[trigger] final(list).list@[k];
                let o = old(list).list@[k];
                &&& c.ip == o.ip
                &&& c.port == o.port
                &&& c.name@ == match lookup_name(getent_entries(getent_out@), o.ip) {
                    Some(n) => n,
                    None => o.name@,
                }
            },
{
    let entries = parse_getent_hosts(getent_out);
    proof {
        assert(entries@.map_values(|e: (u32, String)| (e.0, e.1@)) =~= getent_entries(getent_out@));
    }
    resolve_names(&mut list.list, &entries);
}

} // verus!
