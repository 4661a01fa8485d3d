//! Protocol choice, capability-reply parsing, and the session configuration.

use vstd::prelude::*;

verus! {

/// The four supported terminal graphics protocols.
#[derive(Clone, Copy, Debug, PartialEq, Eq, Structural)]
pub enum ProtocolType {
    Halfblocks,
    Sixel,
    Kitty,
    Iterm2,
}

impl ProtocolType {
    /// Cycle to the next protocol kind; four steps return to the start.
    pub fn next(&self) -> (r: ProtocolType)
        ensures
            r == self.spec_next(),
    {
        match self {
            ProtocolType::Halfblocks => ProtocolType::Sixel,
            ProtocolType::Sixel => ProtocolType::Kitty,
            ProtocolType::Kitty => ProtocolType::Iterm2,
            ProtocolType::Iterm2 => ProtocolType::Halfblocks,
        }
    }

    /// What [`ProtocolType::next`] returns.
    pub open spec fn spec_next(self) -> ProtocolType {
        match self {
            ProtocolType::Halfblocks => ProtocolType::Sixel,
            ProtocolType::Sixel => ProtocolType::Kitty,
            ProtocolType::Kitty => ProtocolType::Iterm2,
            ProtocolType::Iterm2 => ProtocolType::Halfblocks,
        }
    }
}

/// Cycling the protocol kind four times returns to the starting kind, and the
/// three intermediate kinds are all distinct from it and from each other.
pub proof fn lemma_protocol_cycle(start: ProtocolType)
    ensures
        start.spec_next().spec_next().spec_next().spec_next() == start,
        start.spec_next() != start,
        start.spec_next().spec_next() != start,
        start.spec_next().spec_next() != start.spec_next(),
        start.spec_next().spec_next().spec_next() != start,
        start.spec_next().spec_next().spec_next() != start.spec_next(),
        start.spec_next().spec_next().spec_next() != start.spec_next().spec_next(),
{
}

/// One parsed terminal reply: a typed capability fact.
///
/// `Unknown` is the state of a reply whose kind has not been recognized yet;
/// the parser never emits it as a fact.
#[derive(Clone, Copy, Debug)]
pub enum ParsedResponse {
    Unknown,
    Kitty(bool),
    Sixel(bool),
    CellSize(Option<(u16, u16)>),
    Status,
}

impl PartialEq for ParsedResponse {
    fn eq(&self, other: &ParsedResponse) -> bool {
        match (self, other) {
            (ParsedResponse::Unknown, ParsedResponse::Unknown) => true,
            (ParsedResponse::Kitty(a), ParsedResponse::Kitty(b)) => a == b,
            (ParsedResponse::Sixel(a), ParsedResponse::Sixel(b)) => a == b,
            (ParsedResponse::CellSize(a), ParsedResponse::CellSize(b)) => match (a, b) {
                (Option::None, Option::None) => true,
                (Option::Some(p), Option::Some(q)) => p.0 == q.0 && p.1 == q.1,
                _ => false,
            },
            (ParsedResponse::Status, ParsedResponse::Status) => true,
            _ => false,
        }
    }
}

impl vstd::std_specs::cmp::PartialEqSpecImpl for ParsedResponse {
    open spec fn obeys_eq_spec() -> bool {
        true
    }

    open spec fn eq_spec(&self, other: &ParsedResponse) -> bool {
        *self == *other
    }
}

/// The escape character that starts every terminal reply.
pub open spec fn esc() -> char {
    '\x1b'
}

/// A digit character.
pub open spec fn is_digit(c: char) -> bool {
    c == '0' || c == '1' || c == '2' || c == '3' || c == '4' || c == '5' || c == '6' || c == '7'
        || c == '8' || c == '9'
}

/// The value of a digit character.
pub open spec fn digit_val(c: char) -> int {
    if c == '0' {
        0
    } else if c == '1' {
        1
    } else if c == '2' {
        2
    } else if c == '3' {
        3
    } else if c == '4' {
        4
    } else if c == '5' {
        5
    } else if c == '6' {
        6
    } else if c == '7' {
        7
    } else if c == '8' {
        8
    } else {
        9
    }
}

/// All characters of `s` are digits.
pub open spec fn all_digits(s: Seq<char>) -> bool {
    forall|k: int| 0 <= k < s.len() ==> is_digit(#[trigger] s[k])
}

/// The decimal value of a digit sequence, most significant first.
pub open spec fn dec_val(s: Seq<char>) -> int
    decreases s.len(),
{
    if s.len() == 0 {
        0
    } else {
        dec_val(s.drop_last()) * 10 + digit_val(s.last())
    }
}

/// How `u16` parses from text: an optional leading `+`, then at least one
/// digit, with a value that fits.
pub open spec fn spec_parse_u16(s: Seq<char>) -> Option<u16> {
    let t = if s.len() > 0 && s[0] == '+' {
        s.drop_first()
    } else {
        s
    };
    if t.len() > 0 && all_digits(t) && dec_val(t) <= 65535 {
        Option::Some(dec_val(t) as u16)
    } else {
        Option::None
    }
}

/// The characters `c0 c1 c2` occur consecutively at position `i` of `s`.
pub open spec fn triple_at(s: Seq<char>, i: int, c0: char, c1: char, c2: char) -> bool {
    s[i] == c0 && s[i + 1] == c1 && s[i + 2] == c2
}

/// The three characters occur consecutively somewhere in `s`.
pub open spec fn has_triple(s: Seq<char>, c0: char, c1: char, c2: char) -> bool {
    exists|i: int| 0 <= i && i + 2 < s.len() && #[trigger] triple_at(s, i, c0, c1, c2)
}

/// `s` ends with the two characters `c0 c1`.
pub open spec fn ends_two(s: Seq<char>, c0: char, c1: char) -> bool {
    s.len() >= 2 && s[s.len() - 2] == c0 && s[s.len() - 1] == c1
}

/// The device-attributes reply advertises sixel support: a `4` parameter
/// occurs among the semicolon-separated fields.
pub open spec fn spec_sixel_flag(data: Seq<char>) -> bool {
    has_triple(data, ';', '4', ';') || has_triple(data, '?', '4', ';') || ends_two(data, ';', '4')
        || ends_two(data, '?', '4')
}

/// The exact Kitty graphics acknowledgement, up to its string terminator.
pub open spec fn kitty_ack() -> Seq<char> {
    seq!['_', 'G', 'i', '=', '3', '1', ';', 'O', 'K', '\x1b']
}

/// Positions `i < j` are the only two semicolons of `data`.
pub open spec fn is_two_semi_split(data: Seq<char>, i: int, j: int) -> bool {
    0 <= i < j < data.len() && data[i] == ';' && data[j] == ';' && forall|k: int|
        0 <= k < data.len() && #[trigger] data[k] == ';' ==> k == i || k == j
}

/// How a cell-size reply body is interpreted at its `t` terminator: exactly
/// three semicolon-separated fields, the last two positive numbers, emitted
/// with the height field first in the reply but swapped to (width, height).
pub open spec fn spec_cell_size(data: Seq<char>) -> Option<(u16, u16)> {
    if exists|i: int, j: int| is_two_semi_split(data, i, j) {
        let (i, j) = choose|i: int, j: int| is_two_semi_split(data, i, j);
        let h = spec_parse_u16(data.subrange(i + 1, j));
        let w = spec_parse_u16(data.subrange(j + 1, data.len() as int));
        if h is Some && w is Some && h->0 > 0 && w->0 > 0 {
            Option::Some((w->0, h->0))
        } else {
            Option::None
        }
    } else {
        Option::None
    }
}

/// The parser's abstract state: the buffered reply text and the reply class
/// being parsed (`Unknown` while none has been recognized).
pub ghost struct ParserView {
    pub data: Seq<char>,
    pub mode: ParsedResponse,
}

impl ParserView {
    /// The state after discarding everything: buffer empty, no class.
    pub open spec fn restarted() -> ParserView {
        ParserView { data: Seq::empty(), mode: ParsedResponse::Unknown }
    }
}

/// One transition of the reply parser: the next state and the fact emitted,
/// if any.  An escape while a class is being matched (except the Kitty reply,
/// whose own terminator contains an escape) restarts the parser, which makes
/// it resilient to interleaved garbage.
pub open spec fn spec_push(v: ParserView, c: char) -> (ParserView, Option<ParsedResponse>) {
    match v.mode {
        ParsedResponse::Unknown => {
            if c == esc() {
                (ParserView::restarted(), Option::None)
            } else {
                let mode = if v.data == seq!['['] && c == '?' {
                    ParsedResponse::Sixel(false)
                } else if v.data == seq!['_', 'G', 'i', '=', '3', '1'] && c == ';' {
                    ParsedResponse::Kitty(false)
                } else if v.data == seq!['[', '6'] && c == ';' {
                    ParsedResponse::CellSize(Option::None)
                } else if v.data == seq!['['] && c == '0' {
                    ParsedResponse::Status
                } else {
                    ParsedResponse::Unknown
                };
                (ParserView { data: v.data.push(c), mode }, Option::None)
            }
        },
        ParsedResponse::Sixel(_) => {
            if c == 'c' {
                (ParserView::restarted(), Option::Some(ParsedResponse::Sixel(spec_sixel_flag(v.data))))
            } else if c == esc() {
                (ParserView::restarted(), Option::None)
            } else {
                (ParserView { data: v.data.push(c), mode: v.mode }, Option::None)
            }
        },
        ParsedResponse::Kitty(_) => {
            if c == '\\' {
                (ParserView::restarted(), Option::Some(ParsedResponse::Kitty(v.data == kitty_ack())))
            } else {
                (ParserView { data: v.data.push(c), mode: v.mode }, Option::None)
            }
        },
        ParsedResponse::CellSize(_) => {
            if c == 't' {
                (ParserView::restarted(), Option::Some(ParsedResponse::CellSize(spec_cell_size(v.data))))
            } else if c == esc() {
                (ParserView::restarted(), Option::None)
            } else {
                (ParserView { data: v.data.push(c), mode: v.mode }, Option::None)
            }
        },
        ParsedResponse::Status => {
            if c == 'n' {
                (v, Option::Some(ParsedResponse::Status))
            } else if c == esc() {
                (ParserView::restarted(), Option::None)
            } else {
                (ParserView { data: v.data.push(c), mode: v.mode }, Option::None)
            }
        },
    }
}

/// In the idle state an escape always restarts the parser and emits nothing,
/// whatever has been buffered; recognition of a later reply is unaffected by
/// garbage before its escape.
pub proof fn lemma_escape_restarts_idle(data: Seq<char>)
    ensures
        spec_push(ParserView { data, mode: ParsedResponse::Unknown }, esc()) == (
        ParserView::restarted(),
        Option::<ParsedResponse>::None,
        ),
{
}

/// Incremental parser over the terminal's reply stream, one character at a
/// time.
pub struct Parser {
    data: Vec<char>,
    sequence: ParsedResponse,
}

impl View for Parser {
    type V = ParserView;

    closed spec fn view(&self) -> ParserView {
        ParserView { data: self.data@, mode: self.sequence }
    }
}

impl Parser {
    /// A parser in its initial state: empty buffer, no recognized class.
    pub fn new() -> (p: Parser)
        ensures
            p@ == ParserView::restarted(),
    {
        let p = Parser { data: Vec::new(), sequence: ParsedResponse::Unknown };
        proof {
            assert(p@.data =~= Seq::<char>::empty());
        }
        p
    }

    fn restart(&mut self) -> (r: Option<ParsedResponse>)
        ensures
            final(self)@ == ParserView::restarted(),
            r is None,
    {
        self.data = Vec::new();
        self.sequence = ParsedResponse::Unknown;
        proof {
            assert(final(self)@.data =~= Seq::<char>::empty());
        }
        Option::None
    }

    /// Feed one character; returns the capability fact completed by it, if any.
    pub fn push(&mut self, next: char) -> (r: Option<ParsedResponse>)
        ensures
            (final(self)@, r) == spec_push(old(self)@, next),
    {
        match self.sequence {
            ParsedResponse::Unknown => {
                if next == '\x1b' {
                    return self.restart();
                }
                let len = self.data.len();
                if len == 1 && self.data[0] == '[' && next == '?' {
                    proof {
                        assert(old(self)@.data =~= seq!['[']);
                    }
                    self.sequence = ParsedResponse::Sixel(false);
                } else if len == 6 && self.data[0] == '_' && self.data[1] == 'G' && self.data[2]
                    == 'i' && self.data[3] == '=' && self.data[4] == '3' && self.data[5] == '1'
                    && next == ';' {
                    proof {
                        assert(old(self)@.data =~= seq!['_', 'G', 'i', '=', '3', '1']);
                    }
                    self.sequence = ParsedResponse::Kitty(false);
                } else if len == 2 && self.data[0] == '[' && self.data[1] == '6' && next == ';' {
                    proof {
                        assert(old(self)@.data =~= seq!['[', '6']);
                    }
                    self.sequence = ParsedResponse::CellSize(Option::None);
                } else if len == 1 && self.data[0] == '[' && next == '0' {
                    proof {
                        assert(old(self)@.data =~= seq!['[']);
                    }
                    self.sequence = ParsedResponse::Status;
                }
                self.data.push(next);
                Option::None
            },
            ParsedResponse::Sixel(_) => {
                if next == 'c' {
                    let flag = sixel_flag(&self.data);
                    let _ = self.restart();
                    Option::Some(ParsedResponse::Sixel(flag))
                } else if next == '\x1b' {
                    self.restart()
                } else {
                    self.data.push(next);
                    Option::None
                }
            },
            ParsedResponse::Kitty(_) => {
                if next == '\\' {
                    let ok = is_kitty_ack(&self.data);
                    let _ = self.restart();
                    Option::Some(ParsedResponse::Kitty(ok))
                } else {
                    self.data.push(next);
                    Option::None
                }
            },
            ParsedResponse::CellSize(_) => {
                if next == 't' {
                    let cs = cell_size_of(&self.data);
                    let _ = self.restart();
                    Option::Some(ParsedResponse::CellSize(cs))
                } else if next == '\x1b' {
                    self.restart()
                } else {
                    self.data.push(next);
                    Option::None
                }
            },
            ParsedResponse::Status => {
                if next == 'n' {
                    Option::Some(ParsedResponse::Status)
                } else if next == '\x1b' {
                    self.restart()
                } else {
                    self.data.push(next);
                    Option::None
                }
            },
        }
    }
}

/// Search for three consecutive characters.
fn find_triple(s: &Vec<char>, c0: char, c1: char, c2: char) -> (r: bool)
    ensures
        r == has_triple(s@, c0, c1, c2),
{
    if s.len() < 3 {
        return false;
    }
    let mut i: usize = 0;
    while i < s.len() - 2
        invariant
            s@.len() >= 3,
            0 <= i <= s@.len() - 2,
            forall|k: int| 0 <= k < i ==> !#[trigger] triple_at(s@, k, c0, c1, c2),
        decreases s@.len() - i,
    {
        if s[i] == c0 && s[i + 1] == c1 && s[i + 2] == c2 {
            proof {
                assert(triple_at(s@, i as int, c0, c1, c2));
            }
            return true;
        }
        i = i + 1;
    }
    false
}

/// `s` ends with the two given characters.
fn check_ends_two(s: &Vec<char>, c0: char, c1: char) -> (r: bool)
    ensures
        r == ends_two(s@, c0, c1),
{
    s.len() >= 2 && s[s.len() - 2] == c0 && s[s.len() - 1] == c1
}

/// The sixel `4` parameter occurs in the buffered device-attributes text.
fn sixel_flag(s: &Vec<char>) -> (r: bool)
    ensures
        r == spec_sixel_flag(s@),
{
    find_triple(s, ';', '4', ';') || find_triple(s, '?', '4', ';') || check_ends_two(s, ';', '4')
        || check_ends_two(s, '?', '4')
}

/// The buffered text is exactly the Kitty acknowledgement.
fn is_kitty_ack(s: &Vec<char>) -> (r: bool)
    ensures
        r == (s@ == kitty_ack()),
{
    if s.len() != 10 {
        return false;
    }
    let r = s[0] == '_' && s[1] == 'G' && s[2] == 'i' && s[3] == '=' && s[4] == '3' && s[5] == '1'
        && s[6] == ';' && s[7] == 'O' && s[8] == 'K' && s[9] == '\x1b';
    proof {
        if r {
            assert(s@ =~= kitty_ack());
        }
    }
    r
}

/// Copy the characters of `s` in positions `a..b`.
fn subvec(s: &Vec<char>, a: usize, b: usize) -> (r: Vec<char>)
    requires
        a <= b <= s@.len(),
    ensures
        r@ == s@.subrange(a as int, b as int),
{
    let mut r: Vec<char> = Vec::new();
    let mut k: usize = a;
    proof {
        assert(r@ =~= s@.subrange(a as int, a as int));
    }
    while k < b
        invariant
            a <= k <= b <= s@.len(),
            r@ == s@.subrange(a as int, k as int),
        decreases b - k,
    {
        r.push(s[k]);
        proof {
            assert(r@ =~= s@.subrange(a as int, k as int + 1));
        }
        k = k + 1;
    }
    r
}

/// The value of one digit character, or nothing.
fn digit_of(c: char) -> (r: Option<u32>)
    ensures
        match r {
            Option::Some(d) => is_digit(c) && d == digit_val(c),
            Option::None => !is_digit(c),
        },
{
    if c == '0' {
        Option::Some(0)
    } else if c == '1' {
        Option::Some(1)
    } else if c == '2' {
        Option::Some(2)
    } else if c == '3' {
        Option::Some(3)
    } else if c == '4' {
        Option::Some(4)
    } else if c == '5' {
        Option::Some(5)
    } else if c == '6' {
        Option::Some(6)
    } else if c == '7' {
        Option::Some(7)
    } else if c == '8' {
        Option::Some(8)
    } else if c == '9' {
        Option::Some(9)
    } else {
        Option::None
    }
}

/// Parse a `u16` as the standard library does: optional `+`, digits, in range.
fn parse_u16(s: &Vec<char>) -> (r: Option<u16>)
    ensures
        r == spec_parse_u16(s@),
{
    let mut start: usize = 0;
    if s.len() > 0 && s[0] == '+' {
        start = 1;
    }
    let ghost t = if start == 1 {
        s@.drop_first()
    } else {
        s@
    };
    proof {
        assert(t =~= s@.subrange(start as int, s@.len() as int));
    }
    if s.len() == start {
        return Option::None;
    }
    proof {
        assert(t.len() > 0);
    }
    let mut i: usize = start;
    let mut acc: u32 = 0;
    let mut big = false;
    proof {
        assert(s@.subrange(start as int, start as int) =~= Seq::<char>::empty());
    }
    while i < s.len()
        invariant
            start <= i <= s@.len(),
            start <= 1,
            (start == 1) == (s@.len() > 0 && s@[0] == '+'),
            t == s@.subrange(start as int, s@.len() as int),
            t == (if s@.len() > 0 && s@[0] == '+' { s@.drop_first() } else { s@ }),
            forall|k: int| start <= k < i ==> is_digit(#[trigger] s@[k]),
            !big ==> acc == dec_val(s@.subrange(start as int, i as int)) && acc <= 65535,
            big ==> dec_val(s@.subrange(start as int, i as int)) > 65535,
        decreases s@.len() - i,
    {
        let c = s[i];
        let d: u32 = match digit_of(c) {
            Option::Some(d) => d,
            Option::None => {
                proof {
                    assert(t[i - start as int] == c);
                    assert(!is_digit(t[i - start as int]));
                }
                return Option::None;
            },
        };
        proof {
            let pre = s@.subrange(start as int, i as int);
            let cur = s@.subrange(start as int, i as int + 1);
            assert(cur.drop_last() =~= pre);
            assert(cur.last() == s@[i as int]);
        }
        if big {
        } else {
            acc = acc * 10 + d;
            if acc > 65535 {
                big = true;
            }
        }
        i = i + 1;
    }
    proof {
        assert(s@.subrange(start as int, s@.len() as int) == t);
        assert(forall|k: int| 0 <= k < t.len() ==> is_digit(#[trigger] t[k]));
    }
    if big {
        Option::None
    } else {
        Option::Some(acc as u16)
    }
}

/// Find the positions of the only two semicolons of `s`, if `s` has exactly
/// two.
fn find_two_semis(s: &Vec<char>) -> (r: Option<(usize, usize)>)
    ensures
        match r {
            Option::Some(p) => is_two_semi_split(s@, p.0 as int, p.1 as int),
            Option::None => !exists|i: int, j: int| is_two_semi_split(s@, i, j),
        },
{
    let mut count: usize = 0;
    let mut p1: usize = 0;
    let mut p2: usize = 0;
    let mut p3: usize = 0;
    let mut k: usize = 0;
    while k < s.len()
        invariant
            0 <= k <= s@.len(),
            count == 0 ==> forall|m: int| 0 <= m < k ==> #[trigger] s@[m] != ';',
            count == 1 ==> p1 < k && s@[p1 as int] == ';' && forall|m: int|
                0 <= m < k && #[trigger] s@[m] == ';' ==> m == p1,
            count == 2 ==> p1 < p2 < k && s@[p1 as int] == ';' && s@[p2 as int] == ';'
                && forall|m: int| 0 <= m < k && #[trigger] s@[m] == ';' ==> m == p1 || m == p2,
            count >= 3 ==> p1 < p2 < p3 < k && s@[p1 as int] == ';' && s@[p2 as int] == ';'
                && s@[p3 as int] == ';',
        decreases s@.len() - k,
    {
        if s[k] == ';' {
            if count == 0 {
                p1 = k;
            } else if count == 1 {
                p2 = k;
            } else if count == 2 {
                p3 = k;
            }
            if count < 3 {
                count = count + 1;
            }
        }
        k = k + 1;
    }
    if count == 2 {
        Option::Some((p1, p2))
    } else {
        proof {
            if count == 0 || count == 1 {
                assert forall|i: int, j: int| !is_two_semi_split(s@, i, j) by {
                    if is_two_semi_split(s@, i, j) {
                        assert(s@[i] == ';');
                        assert(s@[j] == ';');
                    }
                }
            } else {
                assert forall|i: int, j: int| !is_two_semi_split(s@, i, j) by {
                    if is_two_semi_split(s@, i, j) {
                        assert(s@[p1 as int] == ';');
                        assert(s@[p2 as int] == ';');
                        assert(s@[p3 as int] == ';');
                    }
                }
            }
        }
        Option::None
    }
}

/// Interpret a cell-size reply body, as `spec_cell_size` says.
fn cell_size_of(s: &Vec<char>) -> (r: Option<(u16, u16)>)
    ensures
        r == spec_cell_size(s@),
{
    match find_two_semis(s) {
        Option::None => Option::None,
        Option::Some((i, j)) => {
            proof {
                let (ci, cj) = choose|ci: int, cj: int| is_two_semi_split(s@, ci, cj);
                assert(s@[ci] == ';');
                assert(s@[cj] == ';');
                assert(ci == i && cj == j);
            }
            let n = s.len();
            proof {
                assert(j < s@.len());
            }
            let hf = subvec(s, i + 1, j);
            let wf = subvec(s, j + 1, n);
            let h = parse_u16(&hf);
            let w = parse_u16(&wf);
            match (h, w) {
                (Option::Some(hv), Option::Some(wv)) => {
                    if hv > 0 && wv > 0 {
                        Option::Some((wv, hv))
                    } else {
                        Option::None
                    }
                },
                _ => Option::None,
            }
        },
    }
}

/// `needle` occurs as a contiguous run inside `hay`.
pub open spec fn spec_contains_seq(hay: Seq<char>, needle: Seq<char>) -> bool {
    exists|i: int| 0 <= i && i + needle.len() <= hay.len() && #[trigger] hay.subrange(
        i,
        i + needle.len(),
    ) == needle
}

/// Search for `needle` inside `hay`.
fn contains_seq(hay: &Vec<char>, needle: &Vec<char>) -> (r: bool)
    ensures
        r == spec_contains_seq(hay@, needle@),
{
    let n = needle.len();
    let h = hay.len();
    if n > h {
        return false;
    }
    if n == 0 {
        proof {
            assert(hay@.subrange(0, 0 + needle@.len() as int) =~= needle@);
        }
        return true;
    }
    let mut i: usize = 0;
    while i <= h - n
        invariant
            1 <= n == needle@.len() <= hay@.len() == h,
            0 <= i <= h - n + 1,
            forall|q: int|
                0 <= q < i ==> #[trigger] hay@.subrange(q, q + needle@.len()) != needle@,
        decreases h + 1 - n - i,
    {
        let mut j: usize = 0;
        let mut hit = true;
        while j < n
            invariant
                n == needle@.len() <= hay@.len() == h,
                0 <= i <= h - n,
                0 <= j <= n,
                hit ==> forall|q: int| 0 <= q < j ==> #[trigger] hay@[i + q] == needle@[q],
                !hit ==> hay@.subrange(i as int, i as int + needle@.len()) != needle@,
            decreases n - j,
        {
            if hay[i + j] != needle[j] {
                proof {
                    assert(hay@.subrange(i as int, i as int + needle@.len())[j as int] == hay@[
                        i as int + j as int]);
                }
                hit = false;
                j = n;
            } else {
                j = j + 1;
            }
        }
        if hit {
            proof {
                assert forall|q: int| 0 <= q < needle@.len() implies hay@.subrange(
                    i as int,
                    i as int + needle@.len(),
                )[q] == needle@[q] by {
                    assert(hay@[i + q] == needle@[q]);
                }
                assert(hay@.subrange(i as int, i as int + needle@.len()) =~= needle@);
            }
            return true;
        }
        i = i + 1;
    }
    false
}

/// The values of the environment that protocol detection reads, each as a
/// character sequence where the variable is set.
pub struct TermEnv {
    pub term: Option<Vec<char>>,
    pub term_program: Option<Vec<char>>,
    pub lc_terminal: Option<Vec<char>>,
    pub kitty_window_id: Option<Vec<char>>,
    pub iterm_session_id: Option<Vec<char>>,
    pub wezterm_executable: Option<Vec<char>>,
}

/// A set, non-empty value of an environment variable.
pub open spec fn env_set(v: Option<Vec<char>>) -> bool {
    v is Some && v->0@.len() > 0
}

/// We are inside tmux: TERM starts with "tmux", or TERM_PROGRAM is exactly
/// "tmux".
pub open spec fn spec_is_tmux(env: TermEnv) -> bool {
    ||| (env.term is Some && env.term->0@.len() >= 4 && env.term->0@.subrange(0, 4) == seq![
        't',
        'm',
        'u',
        'x',
    ])
    ||| (env.term_program is Some && env.term_program->0@ == seq!['t', 'm', 'u', 'x'])
}

/// The protocol guessed from program-specific markers that an outer terminal
/// leaks into the environment, checked in a fixed order.  Only meaningful
/// inside tmux, where the capability query cannot be trusted.
pub open spec fn spec_outer_hint(env: TermEnv) -> Option<ProtocolType> {
    if env_set(env.kitty_window_id) {
        Option::Some(ProtocolType::Kitty)
    } else if env_set(env.iterm_session_id) {
        Option::Some(ProtocolType::Iterm2)
    } else if env_set(env.wezterm_executable) {
        Option::Some(ProtocolType::Iterm2)
    } else {
        Option::None
    }
}

/// A terminal of the iTerm2 family is hinted: TERM_PROGRAM contains one of
/// the known program names, or LC_TERMINAL contains "iTerm".
pub open spec fn spec_iterm2_hint(env: TermEnv) -> Option<ProtocolType> {
    let tp_hit = env.term_program is Some && (spec_contains_seq(
        env.term_program->0@,
        seq!['i', 'T', 'e', 'r', 'm'],
    ) || spec_contains_seq(env.term_program->0@, seq!['W', 'e', 'z', 'T', 'e', 'r', 'm'])
        || spec_contains_seq(env.term_program->0@, seq!['m', 'i', 'n', 't', 't', 'y'])
        || spec_contains_seq(env.term_program->0@, seq!['v', 's', 'c', 'o', 'd', 'e'])
        || spec_contains_seq(env.term_program->0@, seq!['T', 'a', 'b', 'b', 'y'])
        || spec_contains_seq(env.term_program->0@, seq!['H', 'y', 'p', 'e', 'r']));
    let lc_hit = env.lc_terminal is Some && spec_contains_seq(
        env.lc_terminal->0@,
        seq!['i', 'T', 'e', 'r', 'm'],
    );
    if tp_hit || lc_hit {
        Option::Some(ProtocolType::Iterm2)
    } else {
        Option::None
    }
}

/// Build a needle from up to eight characters; shorter needles repeat none.
fn needle(chars: &[char]) -> (r: Vec<char>)
    ensures
        r@ == chars@,
{
    let mut r: Vec<char> = Vec::new();
    let mut i: usize = 0;
    proof {
        assert(r@ =~= chars@.take(0));
    }
    while i < chars.len()
        invariant
            0 <= i <= chars@.len(),
            r@ == chars@.take(i as int),
        decreases chars@.len() - i,
    {
        r.push(chars[i]);
        proof {
            assert(r@ =~= chars@.take(i as int + 1));
        }
        i = i + 1;
    }
    proof {
        assert(chars@.take(chars@.len() as int) =~= chars@);
    }
    r
}

/// Detect tmux and, when inside it, guess an outer terminal's protocol from
/// environment markers, as `spec_is_tmux` and `spec_outer_hint` say.
pub fn detect_tmux_and_outer_protocol_from_env(env: &TermEnv) -> (r: (bool, Option<ProtocolType>))
    ensures
        r.0 == spec_is_tmux(*env),
        r.1 == if spec_is_tmux(*env) {
            spec_outer_hint(*env)
        } else {
            Option::<ProtocolType>::None
        },
{
    let is_tmux = match &env.term {
        Option::Some(t) => {
            if t.len() >= 4 && t[0] == 't' && t[1] == 'm' && t[2] == 'u' && t[3] == 'x' {
                proof {
                    assert(t@.subrange(0, 4) =~= seq!['t', 'm', 'u', 'x']);
                }
                true
            } else {
                proof {
                    if t@.len() >= 4 && t@.subrange(0, 4) == seq!['t', 'm', 'u', 'x'] {
                        assert(t@.subrange(0, 4)[0] == t@[0]);
                        assert(t@.subrange(0, 4)[1] == t@[1]);
                        assert(t@.subrange(0, 4)[2] == t@[2]);
                        assert(t@.subrange(0, 4)[3] == t@[3]);
                    }
                }
                false
            }
        },
        Option::None => false,
    } || match &env.term_program {
        Option::Some(t) => {
            if t.len() == 4 && t[0] == 't' && t[1] == 'm' && t[2] == 'u' && t[3] == 'x' {
                proof {
                    assert(t@ =~= seq!['t', 'm', 'u', 'x']);
                }
                true
            } else {
                false
            }
        },
        Option::None => false,
    };
    if !is_tmux {
        return (false, Option::None);
    }
    let hint = if env_nonempty(&env.kitty_window_id) {
        Option::Some(ProtocolType::Kitty)
    } else if env_nonempty(&env.iterm_session_id) {
        Option::Some(ProtocolType::Iterm2)
    } else if env_nonempty(&env.wezterm_executable) {
        Option::Some(ProtocolType::Iterm2)
    } else {
        Option::None
    };
    (true, hint)
}

/// The variable is set to a non-empty value.
fn env_nonempty(v: &Option<Vec<char>>) -> (r: bool)
    ensures
        r == env_set(*v),
{
    match v {
        Option::Some(s) => s.len() > 0,
        Option::None => false,
    }
}

/// Guess the iTerm2 family from the environment, as `spec_iterm2_hint` says.
pub fn iterm2_from_env(env: &TermEnv) -> (r: Option<ProtocolType>)
    ensures
        r == spec_iterm2_hint(*env),
{
    let tp_hit = match &env.term_program {
        Option::Some(t) => {
            contains_seq(t, &needle(&['i', 'T', 'e', 'r', 'm'])) || contains_seq(
                t,
                &needle(&['W', 'e', 'z', 'T', 'e', 'r', 'm']),
            ) || contains_seq(t, &needle(&['m', 'i', 'n', 't', 't', 'y'])) || contains_seq(
                t,
                &needle(&['v', 's', 'c', 'o', 'd', 'e']),
            ) || contains_seq(t, &needle(&['T', 'a', 'b', 'b', 'y'])) || contains_seq(
                t,
                &needle(&['H', 'y', 'p', 'e', 'r']),
            )
        },
        Option::None => false,
    };
    let lc_hit = match &env.lc_terminal {
        Option::Some(t) => contains_seq(t, &needle(&['i', 'T', 'e', 'r', 'm'])),
        Option::None => false,
    };
    if tp_hit || lc_hit {
        Option::Some(ProtocolType::Iterm2)
    } else {
        Option::None
    }
}

/// The exact composite capability query: a Kitty graphics query, a
/// device-attributes query, a cell-size query, an iTerm2 status query, and
/// the guaranteed device-status terminator.  Inside tmux the whole payload
/// is wrapped in the passthrough envelope with every escape doubled.
pub open spec fn spec_query(is_tmux: bool) -> Seq<char> {
    if is_tmux {
        "\x1bPtmux;"@ + "\x1b\x1b_Gi=31,s=1,v=1,a=q,t=d,f=24;AAAA"@ + "\x1b\x1b\\"@
            + "\x1b\x1b[c"@ + "\x1b\x1b[16t"@ + "\x1b\x1b[1337n"@ + "\x1b\x1b[5n"@ + "\x1b\\"@
    } else {
        "\x1b_Gi=31,s=1,v=1,a=q,t=d,f=24;AAAA"@ + "\x1b\\"@ + "\x1b[c"@ + "\x1b[16t"@
            + "\x1b[1337n"@ + "\x1b[5n"@
    }
}

/// Build the capability query, as `spec_query` says.
pub fn build_query(is_tmux: bool) -> (r: String)
    ensures
        r@ == spec_query(is_tmux),
{
    let mut s = String::new();
    if is_tmux {
        s.append("\x1bPtmux;");
        s.append("\x1b\x1b_Gi=31,s=1,v=1,a=q,t=d,f=24;AAAA");
        s.append("\x1b\x1b\\");
        s.append("\x1b\x1b[c");
        s.append("\x1b\x1b[16t");
        s.append("\x1b\x1b[1337n");
        s.append("\x1b\x1b[5n");
        s.append("\x1b\\");
    } else {
        s.append("\x1b_Gi=31,s=1,v=1,a=q,t=d,f=24;AAAA");
        s.append("\x1b\\");
        s.append("\x1b[c");
        s.append("\x1b[16t");
        s.append("\x1b[1337n");
        s.append("\x1b[5n");
    }
    proof {
        assert(s@ =~= spec_query(is_tmux));
    }
    s
}

/// The protocol the parsed capability facts support: Kitty over sixel, or
/// none at all.
pub open spec fn spec_proto_from_caps(caps: Seq<ParsedResponse>) -> Option<ProtocolType> {
    if exists|i: int| 0 <= i < caps.len() && caps[i] == ParsedResponse::Kitty(true) {
        Option::Some(ProtocolType::Kitty)
    } else if exists|i: int| 0 <= i < caps.len() && caps[i] == ParsedResponse::Sixel(true) {
        Option::Some(ProtocolType::Sixel)
    } else {
        Option::None
    }
}

/// The cell size of the last successfully parsed cell-size reply.
pub open spec fn spec_font_from_caps(caps: Seq<ParsedResponse>) -> Option<(u16, u16)>
    decreases caps.len(),
{
    if caps.len() == 0 {
        Option::None
    } else {
        match caps.last() {
            ParsedResponse::CellSize(Option::Some(p)) => Option::Some(p),
            _ => spec_font_from_caps(caps.drop_last()),
        }
    }
}

/// Interpret the parsed capability facts: the terminal is non-graphical
/// when there are none; otherwise the supported protocol (Kitty over
/// sixel) and the reported cell size, if any.
pub fn resolve_capabilities(caps: &Vec<ParsedResponse>) -> (r: Result<
    (Option<ProtocolType>, Option<(u16, u16)>),
    crate::Error,
>)
    ensures
        caps@.len() == 0 ==> r == Result::<(Option<ProtocolType>, Option<(u16, u16)>),
            crate::Error,
        >::Err(crate::Error::ProbeNoReply),
        caps@.len() > 0 ==> r == Result::<(Option<ProtocolType>, Option<(u16, u16)>),
            crate::Error,
        >::Ok((spec_proto_from_caps(caps@), spec_font_from_caps(caps@))),
{
    if caps.len() == 0 {
        return Result::Err(crate::Error::ProbeNoReply);
    }
    let mut has_kitty = false;
    let mut has_sixel = false;
    let mut font: Option<(u16, u16)> = Option::None;
    let mut i: usize = 0;
    proof {
        assert(caps@.take(0) =~= Seq::<ParsedResponse>::empty());
    }
    while i < caps.len()
        invariant
            0 <= i <= caps@.len(),
            has_kitty == exists|q: int|
                0 <= q < i && caps@[q] == ParsedResponse::Kitty(true),
            has_sixel == exists|q: int|
                0 <= q < i && caps@[q] == ParsedResponse::Sixel(true),
            font == spec_font_from_caps(caps@.take(i as int)),
        decreases caps@.len() - i,
    {
        let c = caps[i];
        match c {
            ParsedResponse::Kitty(true) => {
                has_kitty = true;
            },
            ParsedResponse::Sixel(true) => {
                has_sixel = true;
            },
            ParsedResponse::CellSize(Option::Some(p)) => {
                font = Option::Some(p);
            },
            _ => {},
        }
        proof {
            let pre = caps@.take(i as int);
            let cur = caps@.take(i as int + 1);
            assert(cur.drop_last() =~= pre);
            assert(cur.last() == caps@[i as int]);
        }
        i = i + 1;
    }
    proof {
        assert(caps@.take(caps@.len() as int) =~= caps@);
    }
    let proto: Option<ProtocolType> = if has_kitty {
        Option::Some(ProtocolType::Kitty)
    } else if has_sixel {
        Option::Some(ProtocolType::Sixel)
    } else {
        Option::None
    };
    Result::Ok((proto, font))
}

/// The font size read from the terminal's window geometry: total pixels
/// divided by the cell grid, or nothing when any dimension is zero.
pub fn font_size_fallback(x_pixels: u16, y_pixels: u16, cols: u16, rows: u16) -> (r: Option<
    crate::FontSize,
>)
    ensures
        r == if x_pixels == 0 || y_pixels == 0 || cols == 0 || rows == 0 {
            Option::<crate::FontSize>::None
        } else {
            Option::Some(((x_pixels / cols) as u16, (y_pixels / rows) as u16))
        },
{
    if x_pixels == 0 || y_pixels == 0 || cols == 0 || rows == 0 {
        return Option::None;
    }
    Option::Some((x_pixels / cols, y_pixels / rows))
}

/// The next image identifier: increments, and wraps to one, never zero.
pub open spec fn spec_next_id(c: u32) -> u32 {
    if c == 0xffff_ffffu32 {
        1u32
    } else {
        (c + 1) as u32
    }
}

/// The image-identifier counter never yields zero: incrementing any value
/// gives a non-zero id, and incrementing the maximum representable value
/// gives one.
pub proof fn lemma_image_id_never_zero(c: u32)
    ensures
        spec_next_id(c) != 0,
        spec_next_id(0xffff_ffffu32) == 1,
{
}

/// Any two normalizations of the same image with the same font and
/// background agree on every encoder's acceptance: acceptance reads only
/// the normalized pixel view, its dimensions and the footprint, all of
/// which the normalization determines.
proof fn lemma_source_accepts_agree(
    s1: crate::protocol::ImageSource,
    s2: crate::protocol::ImageSource,
    image: crate::bitmap::Bitmap,
    font_size: crate::FontSize,
    bg: crate::bitmap::Rgba,
    resize: crate::resize::Resize,
    size: crate::geometry::Rect,
)
    requires
        crate::protocol::is_source_of(s1, image, font_size, bg),
        crate::protocol::is_source_of(s2, image, font_size, bg),
    ensures
        crate::protocol::iterm2::spec_accepts(s1, font_size, resize, size)
            == crate::protocol::iterm2::spec_accepts(s2, font_size, resize, size),
        crate::protocol::kitty::spec_accepts(s1, font_size, resize, size)
            == crate::protocol::kitty::spec_accepts(s2, font_size, resize, size),
        crate::protocol::halfblocks::spec_hb_accepts(
            s1,
            crate::protocol::halfblocks::spec_target_rect(s1, resize, size),
        ) == crate::protocol::halfblocks::spec_hb_accepts(
            s2,
            crate::protocol::halfblocks::spec_target_rect(s2, resize, size),
        ),
{
    assert(s1.area == s2.area);
    assert(s1.image.width == s2.image.width);
    assert(s1.image.height == s2.image.height);
    assert(s1.image.pixels@ == s2.image.pixels@);
    assert(crate::resize::spec_desired_rect(resize, s1.area, size)
        == crate::resize::spec_desired_rect(resize, s2.area, size));
    assert(crate::resize::spec_needs_resize(
        resize,
        s1,
        crate::geometry::Rect::spec_zero(),
        size,
        false,
    ) == crate::resize::spec_needs_resize(
        resize,
        s2,
        crate::geometry::Rect::spec_zero(),
        size,
        false,
    ));
}

/// The per-session configuration: the resolved protocol kind, the font
/// size, an optional global background color, the tmux flag, and the
/// counter that mints image identifiers.
#[derive(Clone, Copy, Debug)]
pub struct Picker {
    font_size: crate::FontSize,
    protocol_type: ProtocolType,
    background_color: Option<crate::bitmap::Rgba>,
    is_tmux: bool,
    kitty_counter: u32,
}

impl Picker {
    /// The font has no zero dimension.
    pub open spec fn wf(self) -> bool {
        self.spec_font_size().0 > 0 && self.spec_font_size().1 > 0
    }

    /// The stored font size.
    pub closed spec fn spec_font_size(self) -> crate::FontSize {
        self.font_size
    }

    /// The resolved protocol kind.
    pub closed spec fn spec_protocol_type(self) -> ProtocolType {
        self.protocol_type
    }

    /// The global background color, if set.
    pub closed spec fn spec_background_color(self) -> Option<crate::bitmap::Rgba> {
        self.background_color
    }

    /// Whether the passthrough envelope is in use.
    pub closed spec fn spec_is_tmux(self) -> bool {
        self.is_tmux
    }

    /// The image-identifier counter.
    pub closed spec fn spec_counter(self) -> u32 {
        self.kitty_counter
    }

    /// The background color encoders composite with: the global one, else
    /// fully transparent.
    pub open spec fn spec_effective_bg(self) -> crate::bitmap::Rgba {
        match self.spec_background_color() {
            Option::Some(c) => c,
            Option::None => crate::bitmap::Rgba { r: 0, g: 0, b: 0, a: 0 },
        }
    }

    /// Build a picker from a known font size, resolving the protocol from
    /// the environment alone: an iTerm2-family hint first, else a tmux
    /// outer-terminal hint, else the mosaic fallback.  The identifier
    /// counter starts at a random value.
    pub fn from_fontsize(font_size: crate::FontSize, env: &TermEnv) -> (p: Picker)
        requires
            font_size.0 > 0,
            font_size.1 > 0,
        ensures
            p.wf(),
            p.spec_font_size() == font_size,
            p.spec_background_color() is None,
            p.spec_is_tmux() == spec_is_tmux(*env),
            p.spec_protocol_type() == (match spec_iterm2_hint(*env) {
                Option::Some(t) => t,
                Option::None => {
                    let tmux_proto = if spec_is_tmux(*env) {
                        spec_outer_hint(*env)
                    } else {
                        Option::None
                    };
                    match tmux_proto {
                        Option::Some(t) => t,
                        Option::None => ProtocolType::Halfblocks,
                    }
                },
            }),
    {
        let (is_tmux, tmux_proto) = detect_tmux_and_outer_protocol_from_env(env);
        let iterm2_proto = iterm2_from_env(env);
        let protocol_type = match iterm2_proto {
            Option::Some(t) => t,
            Option::None => match tmux_proto {
                Option::Some(t) => t,
                Option::None => ProtocolType::Halfblocks,
            },
        };
        Picker {
            font_size,
            protocol_type,
            background_color: Option::None,
            is_tmux,
            kitty_counter: random_u32(),
        }
    }

    /// Build a picker from probe results: the protocol hint precedence is
    /// the iTerm2-family hint (the most specific signal), then the tmux
    /// outer-terminal hint, then the parsed capability facts, then the
    /// mosaic fallback.  The font size is mandatory; without one the probe
    /// has failed.
    pub fn from_probe(
        font_size: Option<crate::FontSize>,
        tmux_proto: Option<ProtocolType>,
        iterm2_proto: Option<ProtocolType>,
        capability_proto: Option<ProtocolType>,
        is_tmux: bool,
    ) -> (r: Result<Picker, crate::Error>)
        ensures
            match font_size {
                Option::None => r == Result::<Picker, crate::Error>::Err(
                    crate::Error::ProbeNoReply,
                ),
                Option::Some(fs) => {
                    if fs.0 > 0 && fs.1 > 0 {
                        &&& r is Ok
                        &&& r->Ok_0.wf()
                        &&& r->Ok_0.spec_font_size() == fs
                        &&& r->Ok_0.spec_background_color() is None
                        &&& r->Ok_0.spec_is_tmux() == is_tmux
                        &&& r->Ok_0.spec_protocol_type() == (match iterm2_proto {
                            Option::Some(t) => t,
                            Option::None => match tmux_proto {
                                Option::Some(t) => t,
                                Option::None => match capability_proto {
                                    Option::Some(t) => t,
                                    Option::None => ProtocolType::Halfblocks,
                                },
                            },
                        })
                    } else {
                        r == Result::<Picker, crate::Error>::Err(crate::Error::ProbeNoReply)
                    }
                },
            },
    {
        let fs = match font_size {
            Option::Some(fs) => fs,
            Option::None => {
                return Result::Err(crate::Error::ProbeNoReply);
            },
        };
        if fs.0 == 0 || fs.1 == 0 {
            return Result::Err(crate::Error::ProbeNoReply);
        }
        let protocol_type = match iterm2_proto {
            Option::Some(t) => t,
            Option::None => match tmux_proto {
                Option::Some(t) => t,
                Option::None => match capability_proto {
                    Option::Some(t) => t,
                    Option::None => ProtocolType::Halfblocks,
                },
            },
        };
        Result::Ok(
            Picker {
                font_size: fs,
                protocol_type,
                background_color: Option::None,
                is_tmux,
                kitty_counter: random_u32(),
            },
        )
    }

    /// The resolved protocol kind.
    pub fn protocol_type(self) -> (r: ProtocolType)
        ensures
            r == self.spec_protocol_type(),
    {
        self.protocol_type
    }

    /// Switch the protocol kind.
    pub fn set_protocol_type(&mut self, protocol_type: ProtocolType) -> (nothing: ())
        ensures
            final(self).spec_protocol_type() == protocol_type,
            final(self).spec_font_size() == old(self).spec_font_size(),
            final(self).spec_background_color() == old(self).spec_background_color(),
            final(self).spec_is_tmux() == old(self).spec_is_tmux(),
            final(self).spec_counter() == old(self).spec_counter(),
    {
        self.protocol_type = protocol_type;
    }

    /// The font size the picker was built with.
    pub fn font_size(self) -> (r: crate::FontSize)
        ensures
            r == self.spec_font_size(),
    {
        self.font_size
    }

    /// Set or clear the global background color.
    pub fn set_background_color(&mut self, background_color: Option<crate::bitmap::Rgba>) -> (nothing: ())
        ensures
            final(self).spec_background_color() == background_color,
            final(self).spec_font_size() == old(self).spec_font_size(),
            final(self).spec_protocol_type() == old(self).spec_protocol_type(),
            final(self).spec_is_tmux() == old(self).spec_is_tmux(),
            final(self).spec_counter() == old(self).spec_counter(),
    {
        self.background_color = background_color;
    }

    /// The background color to composite with: the global one, else fully
    /// transparent.
    fn effective_background(&self) -> (r: crate::bitmap::Rgba)
        ensures
            r == (match self.spec_background_color() {
                Option::Some(c) => c,
                Option::None => crate::bitmap::Rgba { r: 0, g: 0, b: 0, a: 0 },
            }),
    {
        match self.background_color {
            Option::Some(c) => c,
            Option::None => crate::bitmap::Rgba { r: 0, g: 0, b: 0, a: 0 },
        }
    }

    /// Mint a fresh image identifier: increment with wraparound to one.
    fn mint_image_id(&mut self) -> (r: u32)
        ensures
            final(self).spec_counter() == spec_next_id(old(self).spec_counter()),
            r == final(self).spec_counter(),
            r != 0,
            final(self).spec_font_size() == old(self).spec_font_size(),
            final(self).spec_protocol_type() == old(self).spec_protocol_type(),
            final(self).spec_background_color() == old(self).spec_background_color(),
            final(self).spec_is_tmux() == old(self).spec_is_tmux(),
    {
        self.kitty_counter = match self.kitty_counter.checked_add(1) {
            Option::Some(v) => v,
            Option::None => 1,
        };
        self.kitty_counter
    }

    /// Build a fixed protocol instance for the current kind: normalize the
    /// image, apply the resize policy once against the target area, and
    /// encode.  A fresh image identifier is minted only for the kind that
    /// addresses images.
    pub fn new_protocol(
        &mut self,
        image: crate::bitmap::Bitmap,
        size: crate::geometry::Rect,
        resize: crate::resize::Resize,
    ) -> (r: Result<crate::protocol::Protocol, crate::Error>)
        requires
            old(self).wf(),
            image.wf(),
            crate::bitmap::cells_for(image.width as int, old(self).spec_font_size().0 as int)
                <= 65535,
            crate::bitmap::cells_for(image.height as int, old(self).spec_font_size().1 as int)
                <= 65535,
        ensures
            final(self).wf(),
            final(self).spec_font_size() == old(self).spec_font_size(),
            final(self).spec_protocol_type() == old(self).spec_protocol_type(),
            final(self).spec_background_color() == old(self).spec_background_color(),
            final(self).spec_is_tmux() == old(self).spec_is_tmux(),
            final(self).spec_counter() == (if old(self).spec_protocol_type()
                == ProtocolType::Kitty {
                spec_next_id(old(self).spec_counter())
            } else {
                old(self).spec_counter()
            }),
            r is Ok ==> match r->Ok_0 {
                crate::protocol::Protocol::Halfblocks(_) => old(self).spec_protocol_type()
                    == ProtocolType::Halfblocks,
                crate::protocol::Protocol::Sixel(s) => old(self).spec_protocol_type()
                    == ProtocolType::Sixel && s.is_tmux == old(self).spec_is_tmux()
                    && crate::protocol::sixel::sixel_framed(s.data@, old(self).spec_is_tmux()),
                crate::protocol::Protocol::Kitty(k) => old(self).spec_protocol_type()
                    == ProtocolType::Kitty && k.id == final(self).spec_counter() && k.id != 0
                    && k.is_tmux == old(self).spec_is_tmux(),
                crate::protocol::Protocol::ITerm2(f) => old(self).spec_protocol_type()
                    == ProtocolType::Iterm2 && f.is_tmux == old(self).spec_is_tmux(),
            },
            r is Ok ==> r->Ok_0.wf(),
            r is Ok ==> exists|source: crate::protocol::ImageSource|
                (#[trigger] crate::protocol::is_source_of(
                    source,
                    image,
                    old(self).spec_font_size(),
                    old(self).spec_effective_bg(),
                )) && (match r->Ok_0 {
                    crate::protocol::Protocol::Halfblocks(h) =>
                        crate::protocol::halfblocks::spec_from_source_ok(h, source, resize, size),
                    crate::protocol::Protocol::Sixel(s) =>
                        crate::protocol::sixel::spec_from_source_ok(
                        s,
                        source,
                        old(self).spec_font_size(),
                        resize,
                        old(self).spec_is_tmux(),
                        size,
                    ),
                    crate::protocol::Protocol::Kitty(k) =>
                        crate::protocol::kitty::spec_from_source_ok(
                        k,
                        source,
                        old(self).spec_font_size(),
                        resize,
                        old(self).spec_is_tmux(),
                        size,
                    ),
                    crate::protocol::Protocol::ITerm2(f) =>
                        crate::protocol::iterm2::spec_from_source_ok(
                        f,
                        source,
                        old(self).spec_font_size(),
                        resize,
                        old(self).spec_is_tmux(),
                        size,
                    ),
                }),
            r is Err ==> r->Err_0 == crate::Error::Encode,
            forall|source: crate::protocol::ImageSource|
                #[trigger] crate::protocol::is_source_of(
                    source,
                    image,
                    old(self).spec_font_size(),
                    old(self).spec_effective_bg(),
                ) ==> (r is Ok <==> match old(self).spec_protocol_type() {
                    ProtocolType::Halfblocks => crate::protocol::halfblocks::spec_hb_accepts(
                        source,
                        crate::protocol::halfblocks::spec_target_rect(source, resize, size),
                    ),
                    ProtocolType::Sixel => true,
                    ProtocolType::Kitty => crate::protocol::kitty::spec_accepts(
                        source,
                        old(self).spec_font_size(),
                        resize,
                        size,
                    ),
                    ProtocolType::Iterm2 => crate::protocol::iterm2::spec_accepts(
                        source,
                        old(self).spec_font_size(),
                        resize,
                        size,
                    ),
                }),
    {
        let bg = self.effective_background();
        let font_size = self.font_size;
        let is_tmux = self.is_tmux;
        let source = crate::protocol::ImageSource::new(image, font_size, bg);
        proof {
            assert(crate::protocol::is_source_of(
                source,
                image,
                old(self).spec_font_size(),
                old(self).spec_effective_bg(),
            ));
        }
        let ghost src0 = source;
        let result = match self.protocol_type {
            ProtocolType::Halfblocks => {
                match crate::protocol::halfblocks::Halfblocks::from_source(
                    &source,
                    font_size,
                    resize,
                    bg,
                    size,
                ) {
                    Result::Ok(p) => Result::Ok(crate::protocol::Protocol::Halfblocks(p)),
                    Result::Err(e) => Result::Err(e),
                }
            },
            ProtocolType::Sixel => {
                match crate::protocol::sixel::Sixel::from_source(
                    &source,
                    font_size,
                    resize,
                    bg,
                    is_tmux,
                    size,
                ) {
                    Result::Ok(p) => Result::Ok(crate::protocol::Protocol::Sixel(p)),
                    Result::Err(e) => Result::Err(e),
                }
            },
            ProtocolType::Kitty => {
                let id = self.mint_image_id();
                match crate::protocol::kitty::Kitty::from_source(
                    &source,
                    font_size,
                    resize,
                    bg,
                    size,
                    id,
                    is_tmux,
                ) {
                    Result::Ok(p) => Result::Ok(crate::protocol::Protocol::Kitty(p)),
                    Result::Err(e) => Result::Err(e),
                }
            },
            ProtocolType::Iterm2 => {
                match crate::protocol::iterm2::FixedIterm2::from_source(
                    &source,
                    font_size,
                    resize,
                    bg,
                    is_tmux,
                    size,
                ) {
                    Result::Ok(p) => Result::Ok(crate::protocol::Protocol::ITerm2(p)),
                    Result::Err(e) => Result::Err(e),
                }
            },
        };
        proof {
            assert forall|source2: crate::protocol::ImageSource|
                #[trigger] crate::protocol::is_source_of(
                    source2,
                    image,
                    old(self).spec_font_size(),
                    old(self).spec_effective_bg(),
                ) implies (result is Ok <==> match old(self).spec_protocol_type() {
                ProtocolType::Halfblocks => crate::protocol::halfblocks::spec_hb_accepts(
                    source2,
                    crate::protocol::halfblocks::spec_target_rect(source2, resize, size),
                ),
                ProtocolType::Sixel => true,
                ProtocolType::Kitty => crate::protocol::kitty::spec_accepts(
                    source2,
                    old(self).spec_font_size(),
                    resize,
                    size,
                ),
                ProtocolType::Iterm2 => crate::protocol::iterm2::spec_accepts(
                    source2,
                    old(self).spec_font_size(),
                    resize,
                    size,
                ),
            }) by {
                lemma_source_accepts_agree(
                    source2,
                    src0,
                    image,
                    old(self).spec_font_size(),
                    old(self).spec_effective_bg(),
                    resize,
                    size,
                );
            }
        }
        result
    }

    /// Build a stateful protocol instance for the current kind: normalize
    /// the image and defer all encoding to the first render.  A fresh image
    /// identifier is minted only for the kind that addresses images.
    pub fn new_resize_protocol(&mut self, image: crate::bitmap::Bitmap) -> (r:
        crate::protocol::StatefulProtocol)
        requires
            old(self).wf(),
            image.wf(),
            crate::bitmap::cells_for(image.width as int, old(self).spec_font_size().0 as int)
                <= 65535,
            crate::bitmap::cells_for(image.height as int, old(self).spec_font_size().1 as int)
                <= 65535,
        ensures
            final(self).wf(),
            final(self).spec_font_size() == old(self).spec_font_size(),
            final(self).spec_protocol_type() == old(self).spec_protocol_type(),
            final(self).spec_background_color() == old(self).spec_background_color(),
            final(self).spec_is_tmux() == old(self).spec_is_tmux(),
            final(self).spec_counter() == (if old(self).spec_protocol_type()
                == ProtocolType::Kitty {
                spec_next_id(old(self).spec_counter())
            } else {
                old(self).spec_counter()
            }),
            r.wf(),
            exists|source: crate::protocol::ImageSource|
                (#[trigger] crate::protocol::is_source_of(
                    source,
                    image,
                    old(self).spec_font_size(),
                    old(self).spec_effective_bg(),
                )) && r.spec_source() == source,
            r.spec_source().hash == crate::bitmap::fingerprint(image.pixels@),
            r.spec_rect() == crate::geometry::Rect::spec_zero(),
            match r {
                crate::protocol::StatefulProtocol::Halfblocks(_) => old(self).spec_protocol_type()
                    == ProtocolType::Halfblocks,
                crate::protocol::StatefulProtocol::Sixel(_) => old(self).spec_protocol_type()
                    == ProtocolType::Sixel,
                crate::protocol::StatefulProtocol::Kitty(k) => old(self).spec_protocol_type()
                    == ProtocolType::Kitty && k.current.id == final(self).spec_counter()
                    && k.current.id != 0,
                crate::protocol::StatefulProtocol::ITerm2(_) => old(self).spec_protocol_type()
                    == ProtocolType::Iterm2,
            },
    {
        let bg = self.effective_background();
        let font_size = self.font_size;
        let is_tmux = self.is_tmux;
        let source = crate::protocol::ImageSource::new(image, font_size, bg);
        proof {
            assert(crate::protocol::is_source_of(
                source,
                image,
                old(self).spec_font_size(),
                old(self).spec_effective_bg(),
            ));
        }
        match self.protocol_type {
            ProtocolType::Halfblocks => crate::protocol::StatefulProtocol::Halfblocks(
                crate::protocol::halfblocks::StatefulHalfblocks::new(source, font_size),
            ),
            ProtocolType::Sixel => crate::protocol::StatefulProtocol::Sixel(
                crate::protocol::sixel::StatefulSixel::new(source, font_size, is_tmux),
            ),
            ProtocolType::Kitty => {
                let id = self.mint_image_id();
                crate::protocol::StatefulProtocol::Kitty(
                    crate::protocol::kitty::StatefulKitty::new(source, font_size, id, is_tmux),
                )
            },
            ProtocolType::Iterm2 => crate::protocol::StatefulProtocol::ITerm2(
                crate::protocol::iterm2::Iterm2State::new(source, font_size, is_tmux),
            ),
        }
    }
}

/// Relies on rand::random: an arbitrary starting value for the image
/// identifier counter.  Nothing is promised of the value.
#[verifier::external_body]
fn random_u32() -> u32 {
    rand::random::<u32>()
}

} // verus!
