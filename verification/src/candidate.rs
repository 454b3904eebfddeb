//! Candidate normalization: scheme detection, port detection, and the
//! expansion of a raw address into the proxy URIs to evaluate.

use vstd::prelude::*;
use vstd::string::*;

use crate::scheme::Scheme;
use crate::strutil::{
    all_digits, check_all_digits, contains_seq, find_first, find_first_char, find_last,
    find_last_char, first_char_at, first_occurs_at, has_char, last_char_at, last_occurs_at,
    lemma_first_char_unique, lemma_first_occurs_unique, lemma_last_char_unique,
    lemma_last_occurs_unique, spec_first_char_index, spec_first_index, spec_last_char_index,
    spec_last_index, str_eq, substring_string,
};

verus! {

/// The text after the last scheme separator `://`; the whole string when no
/// separator occurs.
pub open spec fn spec_without_scheme(u: Seq<char>) -> Seq<char> {
    if contains_seq(u, "://"@) {
        u.subrange(spec_last_index(u, "://"@) + "://"@.len(), u.len() as int)
    } else {
        u
    }
}

/// The scheme whose canonical name is exactly `s`, if any.
pub open spec fn spec_scheme_of_name(s: Seq<char>) -> Option<Scheme> {
    if s == Scheme::Http.spec_value() {
        Some(Scheme::Http)
    } else if s == Scheme::Https.spec_value() {
        Some(Scheme::Https)
    } else if s == Scheme::Socks4.spec_value() {
        Some(Scheme::Socks4)
    } else if s == Scheme::Socks5.spec_value() {
        Some(Scheme::Socks5)
    } else {
        None
    }
}

/// The scheme named before the first `://`, when the separator occurs and
/// the name is recognized.
pub open spec fn spec_get_scheme(u: Seq<char>) -> Option<Scheme> {
    if contains_seq(u, "://"@) {
        spec_scheme_of_name(u.subrange(0, spec_first_index(u, "://"@)))
    } else {
        None
    }
}

/// The string carries a port: it has a colon and after the last colon stands
/// a nonempty run of decimal digits (a trailing colon alone is no port).
pub open spec fn spec_has_port(u: Seq<char>) -> bool {
    &&& has_char(u, ':')
    &&& spec_last_char_index(u, ':') + 1 < u.len()
    &&& all_digits(u.subrange(spec_last_char_index(u, ':') + 1, u.len() as int))
}

/// The text before the first colon when a port is present; empty otherwise.
pub open spec fn spec_without_port(u: Seq<char>) -> Seq<char> {
    if spec_has_port(u) {
        u.subrange(0, spec_first_char_index(u, ':'))
    } else {
        Seq::empty()
    }
}

/// Strip everything up to and including the last scheme separator.
pub fn get_url_without_scheme(url: &String) -> (r: String)
    ensures
        r@ == spec_without_scheme(url@),
{
    proof {
        reveal_strlit("://");
    }
    match find_last(url.as_str(), "://") {
        Some(i) => {
            proof {
                let u = url@;
                let sep = "://"@;
                assert(last_occurs_at(u, sep, i as int));
                assert(last_occurs_at(u, sep, spec_last_index(u, sep)));
                lemma_last_occurs_unique(u, sep, i as int, spec_last_index(u, sep));
            }
            let l: usize = url.as_str().unicode_len();
            substring_string(url.as_str(), i + 3, l)
        },
        None => url.clone(),
    }
}

/// Does the address name a recognized scheme: a supported scheme name
/// followed by the `://` separator?
pub fn is_url_has_scheme(url: &String) -> (r: bool)
    ensures
        r == (spec_get_scheme(url@) is Some),
{
    match get_url_scheme(url) {
        Some(_) => true,
        None => false,
    }
}

/// The scheme written before the first `://`, when recognized.
pub fn get_url_scheme(url: &String) -> (r: Option<Scheme>)
    ensures
        r == spec_get_scheme(url@),
{
    match find_first(url.as_str(), "://") {
        Some(i) => {
            proof {
                let u = url@;
                let sep = "://"@;
                assert(first_occurs_at(u, sep, i as int));
                assert(first_occurs_at(u, sep, spec_first_index(u, sep)));
                lemma_first_occurs_unique(u, sep, i as int, spec_first_index(u, sep));
            }
            let name = substring_string(url.as_str(), 0, i);
            if str_eq(name.as_str(), "http") {
                Some(Scheme::Http)
            } else if str_eq(name.as_str(), "https") {
                Some(Scheme::Https)
            } else if str_eq(name.as_str(), "socks4") {
                Some(Scheme::Socks4)
            } else if str_eq(name.as_str(), "socks5") {
                Some(Scheme::Socks5)
            } else {
                None
            }
        },
        None => None,
    }
}

/// Does the address end in a port: a colon with a nonempty run of digits
/// after it?
pub fn is_url_has_port(url: &String) -> (r: bool)
    ensures
        r == spec_has_port(url@),
{
    match find_last_char(url.as_str(), ':') {
        Some(i) => {
            proof {
                let u = url@;
                assert(last_char_at(u, ':', i as int));
                assert(last_char_at(u, ':', spec_last_char_index(u, ':')));
                lemma_last_char_unique(u, ':', i as int, spec_last_char_index(u, ':'));
            }
            let l: usize = url.as_str().unicode_len();
            if i + 1 >= l {
                return false;
            }
            let tail = substring_string(url.as_str(), i + 1, l);
            check_all_digits(tail.as_str())
        },
        None => false,
    }
}

/// The host part before the first colon, when the address carries a port;
/// the empty string otherwise.
pub fn get_url_without_port(url: &String) -> (r: String)
    ensures
        r@ == spec_without_port(url@),
{
    if is_url_has_port(url) {
        match find_first_char(url.as_str(), ':') {
            Some(i) => {
                proof {
                    let u = url@;
                    assert(first_char_at(u, ':', i as int));
                    assert(first_char_at(u, ':', spec_first_char_index(u, ':')));
                    lemma_first_char_unique(u, ':', i as int, spec_first_char_index(u, ':'));
                }
                substring_string(url.as_str(), 0, i)
            },
            None => {
                proof {
                    assert(false);
                }
                String::new()
            },
        }
    } else {
        let r = String::new();
        proof {
            assert(r@ =~= spec_without_port(url@));
        }
        r
    }
}

/// The fixed list of well-known proxy ports tried when a line names no port.
pub open spec fn spec_common_ports() -> Seq<Seq<char>> {
    seq![
        "1080"@,
        "8080"@,
        "9050"@,
        "9051"@,
        "8118"@,
        "8123"@,
        "8388"@,
        "8580"@,
        "8997"@,
        "8998"@,
        "8999"@,
    ]
}

/// `line` with `port` appended: directly after a trailing colon, otherwise
/// with a colon inserted in between.
pub open spec fn spec_with_port(line: Seq<char>, port: Seq<char>) -> Seq<char> {
    if line.len() > 0 && line[line.len() - 1] == ':' {
        line + port
    } else {
        line + seq![':'] + port
    }
}

/// The well-known proxy ports, in the order they are tried.
pub fn common_proxy_ports() -> (r: Vec<&'static str>)
    ensures
        r@.len() == spec_common_ports().len(),
        forall|k: int| 0 <= k < r@.len() ==> (#[trigger] r@[k])@ == spec_common_ports()[k],
{
    let mut v: Vec<&'static str> = Vec::new();
    v.push("1080");
    v.push("8080");
    v.push("9050");
    v.push("9051");
    v.push("8118");
    v.push("8123");
    v.push("8388");
    v.push("8580");
    v.push("8997");
    v.push("8998");
    v.push("8999");
    v
}

/// One candidate per well-known port: `line` with that port attached.
pub fn expand_with_ports(line: &String) -> (r: Vec<String>)
    ensures
        r@.len() == spec_common_ports().len(),
        forall|k: int| 0 <= k < r@.len() ==> (#[trigger] r@[k])@ == spec_with_port(
            line@,
            spec_common_ports()[k],
        ),
{
    proof {
        reveal_strlit(":");
    }
    let l: usize = line.as_str().unicode_len();
    let ends_with_colon: bool = l > 0 && line.as_str().get_char(l - 1) == ':';
    let base: String = if ends_with_colon {
        line.clone()
    } else {
        line.clone().concat(":")
    };
    proof {
        assert(":"@ =~= seq![':']);
        assert(forall|p: Seq<char>| #[trigger] spec_with_port(line@, p) == base@ + p);
    }
    let ports = common_proxy_ports();
    let mut r: Vec<String> = Vec::new();
    let mut k: usize = 0;
    while k < ports.len()
        invariant
            ports@.len() == spec_common_ports().len(),
            forall|j: int| 0 <= j < ports@.len() ==> (#[trigger] ports@[j])@
                == spec_common_ports()[j],
            0 <= k <= ports@.len(),
            r@.len() == k,
            forall|j: int| 0 <= j < k ==> (#[trigger] r@[j])@ == spec_with_port(
                line@,
                spec_common_ports()[j],
            ),
            forall|p: Seq<char>| #[trigger] spec_with_port(line@, p) == base@ + p,
        decreases ports@.len() - k,
    {
        r.push(base.clone().concat(ports[k]));
        k += 1;
    }
    r
}

/// The proxy URIs one candidate is evaluated as: the candidate itself when it
/// already names a recognized scheme, otherwise one URI per supported scheme
/// around the candidate stripped of any unrecognized scheme prefix.
pub fn plan_candidate(p: &String) -> (r: Vec<String>)
    ensures
        spec_get_scheme(p@) is Some ==> r.deep_view() == seq![p@],
        spec_get_scheme(p@) is None ==> {
            &&& r.deep_view().len() == Scheme::spec_all().len()
            &&& forall|k: int| 0 <= k < r.deep_view().len() ==> #[trigger] r.deep_view()[k]
                == Scheme::spec_all()[k].spec_value() + "://"@ + spec_without_scheme(p@)
        },
{
    match get_url_scheme(p) {
        Some(_) => {
            let mut r: Vec<String> = Vec::new();
            r.push(p.clone());
            proof {
                assert(r.deep_view() =~= seq![p@]);
            }
            r
        },
        None => {
            let bare = get_url_without_scheme(p);
            let schemes = Scheme::iter();
            let mut r: Vec<String> = Vec::new();
            let mut k: usize = 0;
            while k < schemes.len()
                invariant
                    schemes@ == Scheme::spec_all(),
                    bare@ == spec_without_scheme(p@),
                    0 <= k <= schemes@.len(),
                    r@.len() == k,
                    r.deep_view().len() == k as int,
                    forall|j: int| 0 <= j < k ==> #[trigger] r.deep_view()[j]
                        == Scheme::spec_all()[j].spec_value() + "://"@ + spec_without_scheme(p@),
                decreases schemes@.len() - k,
            {
                let ghost prev = r.deep_view();
                let scheme = schemes[k];
                let uri = String::from_str(scheme.value()).concat("://").concat(bare.as_str());
                r.push(uri);
                proof {
                    assert(r.deep_view() =~= prev.push(
                        Scheme::spec_all()[k as int].spec_value() + "://"@ + spec_without_scheme(
                            p@,
                        ),
                    ));
                }
                k += 1;
            }
            r
        },
    }
}

/// A whitespace character, as input-line termination understands it.
pub open spec fn is_space_char(c: char) -> bool {
    c == ' ' || c == '\t' || c == '\r' || c == '\n'
}

/// An empty or whitespace-only line ends interactive candidate collection.
pub open spec fn spec_is_terminator(l: Seq<char>) -> bool {
    forall|i: int| 0 <= i < l.len() ==> is_space_char(l[i])
}

/// Is this line the end-of-input sentinel: empty or whitespace only?
pub fn is_terminator_line(line: &str) -> (r: bool)
    ensures
        r == spec_is_terminator(line@),
{
    let l: usize = line.unicode_len();
    let mut i: usize = 0;
    while i < l
        invariant
            l == line@.len(),
            0 <= i <= l,
            forall|j: int| 0 <= j < i ==> is_space_char(line@[j]),
        decreases l - i,
    {
        let c = line.get_char(i);
        if !(c == ' ' || c == '\t' || c == '\r' || c == '\n') {
            return false;
        }
        i += 1;
    }
    true
}

/// The candidate strings one input line contributes: the line itself when it
/// already carries a port, otherwise one candidate per well-known port.
pub open spec fn spec_line_expansion(l: Seq<char>) -> Seq<Seq<char>> {
    if spec_has_port(l) {
        seq![l]
    } else {
        Seq::new(spec_common_ports().len(), |k: int| spec_with_port(l, spec_common_ports()[k]))
    }
}

/// The candidates collected from interactive input: lines are consumed in
/// order and expanded until the first terminator line, which contributes
/// nothing; lines after it are ignored.
pub open spec fn spec_collect(lines: Seq<Seq<char>>) -> Seq<Seq<char>>
    decreases lines.len(),
{
    if lines.len() == 0 {
        Seq::empty()
    } else if spec_is_terminator(lines[0]) {
        Seq::empty()
    } else {
        spec_line_expansion(lines[0]) + spec_collect(lines.drop_first())
    }
}

/// The segments of `s` between newline characters, in order: what splitting
/// on a newline separator yields, a trailing newline included (it contributes
/// a final empty segment). Splitting the empty string gives one empty segment.
pub open spec fn spec_split_lines(s: Seq<char>) -> Seq<Seq<char>>
    decreases s.len(),
{
    if s.len() == 0 {
        seq![s]
    } else if s[0] == '\n' {
        seq![Seq::<char>::empty()] + spec_split_lines(s.drop_first())
    } else {
        let rest = spec_split_lines(s.drop_first());
        seq![seq![s[0]] + rest[0]] + rest.drop_first()
    }
}

proof fn lemma_split_prefix(s: Seq<char>, i: int)
    requires
        0 <= i <= s.len(),
        forall|j: int| 0 <= j < i ==> s[j] != '\n',
    ensures
        i < s.len() && s[i] == '\n' ==> spec_split_lines(s) == seq![s.take(i)]
            + spec_split_lines(s.skip(i + 1)),
        i == s.len() ==> spec_split_lines(s) == seq![s],
    decreases i,
{
    if i == 0 {
        if 0 < s.len() && s[0] == '\n' {
            assert(s.take(0) =~= Seq::<char>::empty());
            assert(s.drop_first() =~= s.skip(1));
        } else if i == s.len() {
            assert(s =~= Seq::<char>::empty());
        }
    } else {
        let t = s.drop_first();
        lemma_split_prefix(t, i - 1);
        let rest = spec_split_lines(t);
        if i < s.len() && s[i] == '\n' {
            assert(t[i - 1] == '\n');
            assert(rest == seq![t.take(i - 1)] + spec_split_lines(t.skip(i)));
            assert(seq![s[0]] + rest[0] =~= s.take(i));
            assert(t.skip(i) =~= s.skip(i + 1));
            assert(rest.drop_first() =~= spec_split_lines(s.skip(i + 1)));
            assert(spec_split_lines(s) =~= seq![s.take(i)] + spec_split_lines(s.skip(i + 1)));
        } else if i == s.len() {
            assert(rest == seq![t]);
            assert(seq![s[0]] + rest[0] =~= s);
            assert(rest.drop_first() =~= Seq::<Seq<char>>::empty());
            assert(spec_split_lines(s) =~= seq![s]);
        }
    }
}

/// Split file contents into lines on the newline character, keeping empty
/// segments, as the file candidate source does.
pub fn split_lines(contents: &String) -> (r: Vec<String>)
    ensures
        r.deep_view() == spec_split_lines(contents@),
{
    let s = contents.as_str();
    let l: usize = s.unicode_len();
    let mut r: Vec<String> = Vec::new();
    let mut start: usize = 0;
    let mut i: usize = 0;
    proof {
        assert(s@.skip(0) =~= s@);
    }
    while i < l
        invariant
            l == s@.len(),
            0 <= start <= i <= l,
            forall|j: int| start <= j < i ==> s@[j] != '\n',
            r.deep_view() + spec_split_lines(s@.skip(start as int)) == spec_split_lines(s@),
        decreases l - i,
    {
        if s.get_char(i) == '\n' {
            let ghost prev = r.deep_view();
            let segment = substring_string(s, start, i);
            r.push(segment);
            proof {
                let tail = s@.skip(start as int);
                assert(forall|j: int| 0 <= j < i - start ==> tail[j] != '\n');
                assert(tail[i - start] == '\n');
                lemma_split_prefix(tail, i - start);
                assert(tail.take(i - start) =~= s@.subrange(start as int, i as int));
                assert(tail.skip(i - start + 1) =~= s@.skip(i as int + 1));
                assert(r.deep_view() =~= prev.push(s@.subrange(start as int, i as int)));
                assert(r.deep_view() + spec_split_lines(s@.skip(i as int + 1))
                    =~= prev + spec_split_lines(s@.skip(start as int)));
            }
            start = i + 1;
        }
        i += 1;
    }
    let ghost prev = r.deep_view();
    let segment = substring_string(s, start, l);
    r.push(segment);
    proof {
        let tail = s@.skip(start as int);
        assert(forall|j: int| 0 <= j < tail.len() ==> tail[j] != '\n');
        lemma_split_prefix(tail, tail.len() as int);
        assert(tail =~= s@.subrange(start as int, l as int));
        assert(r.deep_view() =~= prev.push(tail));
        assert(r.deep_view() =~= prev + spec_split_lines(tail));
    }
    r
}

/// A terminator line ends collection for good: however many lines follow it,
/// they contribute no candidate.
pub proof fn lemma_collection_stops_at_terminator(
    before: Seq<Seq<char>>,
    term: Seq<char>,
    after: Seq<Seq<char>>,
)
    requires
        spec_is_terminator(term),
    ensures
        spec_collect(before + seq![term] + after) == spec_collect(before + seq![term]),
    decreases before.len(),
{
    let with_after = before + seq![term] + after;
    let without_after = before + seq![term];
    if before.len() == 0 {
        assert(with_after[0] == term);
        assert(without_after[0] == term);
    } else {
        assert(with_after[0] == before[0]);
        assert(without_after[0] == before[0]);
        if !spec_is_terminator(before[0]) {
            lemma_collection_stops_at_terminator(before.drop_first(), term, after);
            assert(with_after.drop_first() =~= before.drop_first() + seq![term] + after);
            assert(without_after.drop_first() =~= before.drop_first() + seq![term]);
        }
    }
}

/// Turn interactive input lines into the candidate list: each line up to the
/// first empty or whitespace-only line is taken as is when it has a port and
/// expanded over the well-known ports when it has none.
pub fn collect_candidates(lines: &Vec<String>) -> (r: Vec<String>)
    ensures
        r.deep_view() == spec_collect(lines.deep_view()),
{
    let mut r: Vec<String> = Vec::new();
    let mut i: usize = 0;
    proof {
        assert(lines.deep_view().skip(0) =~= lines.deep_view());
        assert(r.deep_view() + spec_collect(lines.deep_view()) =~= spec_collect(
            lines.deep_view(),
        ));
    }
    while i < lines.len()
        invariant
            0 <= i <= lines@.len(),
            lines.deep_view().len() == lines@.len(),
            r.deep_view() + spec_collect(lines.deep_view().skip(i as int)) == spec_collect(
                lines.deep_view(),
            ),
        decreases lines@.len() - i,
    {
        let line = &lines[i];
        proof {
            assert(lines.deep_view()[i as int] == lines@[i as int]@);
            assert(lines.deep_view().skip(i as int)[0] == lines.deep_view()[i as int]);
        }
        if is_terminator_line(line.as_str()) {
            proof {
                assert(spec_is_terminator(lines.deep_view()[i as int]));
                assert(spec_collect(lines.deep_view().skip(i as int)) =~= Seq::<Seq<char>>::empty());
                assert(r.deep_view() =~= spec_collect(lines.deep_view()));
            }
            return r;
        }
        proof {
            assert(!spec_is_terminator(lines.deep_view()[i as int]));
            assert(lines.deep_view().skip(i as int).drop_first() =~= lines.deep_view().skip(
                i as int + 1,
            ));
        }
        let ghost r_before = r.deep_view();
        if is_url_has_port(line) {
            r.push(line.clone());
            proof {
                assert(spec_line_expansion(lines.deep_view()[i as int]) =~= seq![
                    lines@[i as int]@,
                ]);
                assert(r.deep_view() =~= r_before + spec_line_expansion(
                    lines.deep_view()[i as int],
                ));
            }
        } else {
            let mut expanded = expand_with_ports(line);
            let ghost expanded_view = expanded.deep_view();
            proof {
                assert(expanded_view =~= spec_line_expansion(lines.deep_view()[i as int]));
            }
            r.append(&mut expanded);
            proof {
                assert(r.deep_view() =~= r_before + expanded_view);
            }
        }
        i += 1;
    }
    proof {
        assert(spec_collect(lines.deep_view().skip(i as int)) =~= Seq::<Seq<char>>::empty());
        assert(r.deep_view() =~= spec_collect(lines.deep_view()));
    }
    r
}

} // verus!
