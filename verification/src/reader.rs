//! The reader: the text of one expression becomes one object.

use crate::ground::list2_spec;
use crate::objects::{cons, make_bool, make_fixnum, make_symbol, nil, ObjP, Sexp};
use crate::render::push_char;
use vstd::prelude::*;

verus! {

/// Why a text could not be read. Both errors give an offset into the text,
/// counted in characters.
#[derive(Clone, Copy, Debug, PartialEq, Eq, Structural)]
pub enum ReadError {
    /// The text is not one expression: no expression can go on, or end,
    /// at this offset.
    Parse(usize),
    /// The integer literal that starts at this offset does not fit in 64
    /// bits.
    Fixnum(usize),
}

/// Characters that separate expressions and are otherwise ignored: the
/// white space of Unicode.
pub open spec fn is_space(c: char) -> bool {
    ||| '\u{9}' <= c <= '\u{d}'
    ||| c == ' '
    ||| c == '\u{85}'
    ||| c == '\u{a0}'
    ||| c == '\u{1680}'
    ||| '\u{2000}' <= c <= '\u{200a}'
    ||| c == '\u{2028}'
    ||| c == '\u{2029}'
    ||| c == '\u{202f}'
    ||| c == '\u{205f}'
    ||| c == '\u{3000}'
}

/// Characters that stand for themselves and end an atom.
pub open spec fn is_delimiter(c: char) -> bool {
    c == '(' || c == ')' || c == '.' || c == '\''
}

/// Characters that an atom is made of.
pub open spec fn is_symbol_char(c: char) -> bool {
    !is_space(c) && !is_delimiter(c)
}

/// The ten decimal digits.
pub open spec fn is_digit(c: char) -> bool {
    '0' <= c <= '9'
}

/// Where the run of spaces that starts at `i` ends.
pub open spec fn skip_spaces(s: Seq<char>, i: nat) -> nat
    decreases s.len() - i,
{
    if i < s.len() && is_space(s[i as int]) {
        skip_spaces(s, i + 1)
    } else {
        i
    }
}

/// Skipping spaces goes forward, not past the end of the text, and stops
/// where no space stands.
pub proof fn lemma_skip_spaces_bounds(s: Seq<char>, i: nat)
    ensures
        i <= skip_spaces(s, i),
        i <= s.len() ==> skip_spaces(s, i) <= s.len(),
        skip_spaces(s, i) < s.len() ==> !is_space(s[skip_spaces(s, i) as int]),
        skip_spaces(s, skip_spaces(s, i)) == skip_spaces(s, i),
    decreases s.len() - i,
{
    if i < s.len() && is_space(s[i as int]) {
        lemma_skip_spaces_bounds(s, i + 1);
    }
}

/// Where the atom that starts at `i` ends: an atom is as long as it can be.
pub open spec fn atom_end(s: Seq<char>, i: nat) -> nat
    decreases s.len() - i,
{
    if i < s.len() && is_symbol_char(s[i as int]) {
        atom_end(s, i + 1)
    } else {
        i
    }
}

/// The length of the sign that an atom starts with: one or none.
pub open spec fn sign_len(t: Seq<char>) -> int {
    if t.len() > 0 && (t[0] == '+' || t[0] == '-') {
        1
    } else {
        0
    }
}

/// Whether `t` holds nothing but digits.
pub open spec fn all_digits(t: Seq<char>) -> bool {
    forall|i: int| 0 <= i < t.len() ==> is_digit(#[trigger] t[i])
}

/// An optional sign and then digits, at least one.
pub open spec fn is_integer_form(t: Seq<char>) -> bool {
    let ds = t.skip(sign_len(t));
    ds.len() > 0 && all_digits(ds)
}

/// The number that a run of decimal digits stands for.
pub open spec fn digits_value(ds: Seq<char>) -> nat
    decreases ds.len(),
{
    if ds.len() == 0 {
        0
    } else {
        (digits_value(ds.drop_last()) * 10 + (ds.last() as int - 48)) as nat
    }
}

/// The number that an atom of integer form stands for.
pub open spec fn integer_value(t: Seq<char>) -> int {
    let magnitude = digits_value(t.skip(sign_len(t)));
    if t[0] == '-' {
        -magnitude
    } else {
        magnitude as int
    }
}

/// A value that was read, or the offset of the first integer literal in it
/// that is out of range.
pub type Datum = Result<Sexp, nat>;

/// What the atom `t`, found at offset `at`, stands for: an integer where it
/// has the form of one, else a boolean where it is `#t` or `#f`, else a
/// symbol.
pub open spec fn atom_spec(t: Seq<char>, at: nat) -> Datum {
    if is_integer_form(t) {
        let value = integer_value(t);
        if i64::MIN <= value <= i64::MAX {
            Ok(Sexp::Integer(value as i64))
        } else {
            Err(at)
        }
    } else if t == "#t"@ {
        Ok(Sexp::Boolean(true))
    } else if t == "#f"@ {
        Ok(Sexp::Boolean(false))
    } else {
        Ok(Sexp::Symbol(t))
    }
}

/// `'x` is read as `(quote x)`.
pub open spec fn quoted(d: Datum) -> Datum {
    match d {
        Ok(x) => Ok(list2_spec(Sexp::Symbol("quote"@), x)),
        Err(at) => Err(at),
    }
}

/// The pair of what was read first and what was read after it; where an
/// integer was out of range in either, the first such.
pub open spec fn paired(first: Datum, rest: Datum) -> Datum {
    match first {
        Ok(a) => match rest {
            Ok(d) => Ok(Sexp::Pair(Box::new(a), Box::new(d))),
            Err(at) => Err(at),
        },
        Err(at) => Err(at),
    }
}

/// The outcome of reading from some offset: what was read and the offset
/// after it, or the offset at which the text is malformed.
pub type Parsed = Result<(Datum, nat), nat>;

/// Reads one expression that starts, after spaces, at offset `i`.
pub open spec fn parse_expr(s: Seq<char>, i: nat) -> Parsed
    decreases s.len() - i, 0nat,
{
    proof {
        lemma_skip_spaces_bounds(s, i);
    }
    let j = skip_spaces(s, i);
    if j >= s.len() {
        Err(j)
    } else if s[j as int] == '(' {
        parse_list(s, j + 1, true)
    } else if s[j as int] == '\'' {
        match parse_expr(s, j + 1) {
            Ok((d, k)) => Ok((quoted(d), k)),
            Err(at) => Err(at),
        }
    } else if is_symbol_char(s[j as int]) {
        let k = atom_end(s, j);
        Ok((atom_spec(s.subrange(j as int, k as int), j), k))
    } else {
        Err(j)
    }
}

/// Reads the rest of a list from offset `i`, up to and with its closing
/// bracket. `first` says that no element has been read yet, so that no dot
/// may come.
///
/// An expression takes up at least one character of the text, so what
/// follows it is read from a later offset; the test for this never fails.
pub open spec fn parse_list(s: Seq<char>, i: nat, first: bool) -> Parsed
    decreases s.len() - i, 1nat,
{
    proof {
        lemma_skip_spaces_bounds(s, i);
    }
    let j = skip_spaces(s, i);
    if j >= s.len() {
        Err(j)
    } else if s[j as int] == ')' {
        Ok((Ok(Sexp::Empty), j + 1))
    } else if s[j as int] == '.' && !first {
        match parse_expr(s, j + 1) {
            Ok((d, k)) => {
                let m = skip_spaces(s, k);
                if m < s.len() && s[m as int] == ')' {
                    Ok((d, m + 1))
                } else {
                    Err(m)
                }
            },
            Err(at) => Err(at),
        }
    } else {
        match parse_expr(s, j) {
            Ok((d, k)) => if j < k <= s.len() {
                match parse_list(s, k, false) {
                    Ok((rest, m)) => Ok((paired(d, rest), m)),
                    Err(at) => Err(at),
                }
            } else {
                Err(j)
            },
            Err(at) => Err(at),
        }
    }
}

/// What a text reads as: the one expression that it holds, with nothing
/// but spaces around it. A malformed text is a parse error wherever its
/// integers lie; in a well-formed one, the first integer that is out of
/// range is the error.
pub open spec fn read_spec(s: Seq<char>) -> Result<Sexp, ReadError> {
    match parse_expr(s, 0) {
        Ok((d, k)) => {
            let m = skip_spaces(s, k);
            if m < s.len() {
                Err(ReadError::Parse(m as usize))
            } else {
                match d {
                    Ok(x) => Ok(x),
                    Err(at) => Err(ReadError::Fixnum(at as usize)),
                }
            }
        },
        Err(at) => Err(ReadError::Parse(at as usize)),
    }
}

/// An atom starts where its first character stands and ends in the text.
pub proof fn lemma_atom_end_bounds(s: Seq<char>, i: nat)
    ensures
        i <= atom_end(s, i),
        i <= s.len() ==> atom_end(s, i) <= s.len(),
        i < s.len() && is_symbol_char(s[i as int]) ==> i < atom_end(s, i),
    decreases s.len() - i,
{
    if i < s.len() && is_symbol_char(s[i as int]) {
        lemma_atom_end_bounds(s, i + 1);
    }
}

/// Whatever is read takes up at least one character and ends in the text,
/// and every offset that is given as that of an error lies in what was
/// looked at.
pub proof fn lemma_parse_advances(s: Seq<char>, i: nat, first: bool)
    requires
        i <= s.len(),
    ensures
        parse_expr(s, i) matches Ok((_, k)) ==> i < k <= s.len(),
        parse_list(s, i, first) matches Ok((_, k)) ==> i < k <= s.len(),
        parse_expr(s, i) matches Ok((Err(at), k)) ==> i <= at < k,
        parse_list(s, i, first) matches Ok((Err(at), k)) ==> i <= at < k,
        parse_expr(s, i) matches Err(at) ==> i <= at <= s.len(),
        parse_list(s, i, first) matches Err(at) ==> i <= at <= s.len(),
    decreases s.len() - i,
{
    lemma_skip_spaces_bounds(s, i);
    let j = skip_spaces(s, i);
    if j < s.len() {
        lemma_atom_end_bounds(s, j);
        lemma_parse_advances(s, j + 1, true);
        lemma_parse_advances(s, j + 1, false);
        match parse_expr(s, j + 1) {
            Ok((_, k)) => {
                lemma_skip_spaces_bounds(s, k);
            },
            Err(_) => {},
        }
        if s[j as int] != ')' && !(s[j as int] == '.' && !first) {
            // An element: it is read from `j`, where no space stands.
            assert(skip_spaces(s, j) == j);
            if s[j as int] == '(' || s[j as int] == '\'' || is_symbol_char(s[j as int]) {
                match parse_expr(s, j) {
                    Ok((_, k)) => {
                        lemma_parse_advances(s, k, false);
                    },
                    Err(_) => {},
                }
            }
        }
    }
}

/// The value of what was read, as the contracts speak of it.
pub open spec fn datum_view(d: Result<ObjP, usize>) -> Datum {
    match d {
        Ok(o) => Ok(o@),
        Err(at) => Err(at as nat),
    }
}

/// The value of the outcome of reading from some offset.
pub open spec fn parsed_view(r: Result<(Result<ObjP, usize>, usize), usize>) -> Parsed {
    match r {
        Ok((d, k)) => Ok((datum_view(d), k as nat)),
        Err(at) => Err(at as nat),
    }
}

/// The value of the outcome of reading a text.
pub open spec fn read_view(r: Result<ObjP, ReadError>) -> Result<Sexp, ReadError> {
    match r {
        Ok(o) => Ok(o@),
        Err(e) => Err(e),
    }
}

/// Whether `c` is white space.
fn space(c: char) -> (b: bool)
    ensures
        b == is_space(c),
{
    ('\u{9}' <= c && c <= '\u{d}') || c == ' ' || c == '\u{85}' || c == '\u{a0}' || c == '\u{1680}'
        || ('\u{2000}' <= c && c <= '\u{200a}') || c == '\u{2028}' || c == '\u{2029}' || c
        == '\u{202f}' || c == '\u{205f}' || c == '\u{3000}'
}

/// Whether `c` can stand in an atom.
fn symbol_char(c: char) -> (b: bool)
    ensures
        b == is_symbol_char(c),
{
    !space(c) && c != '(' && c != ')' && c != '.' && c != '\''
}

/// A run of digits stands for at least as much as any run it starts with.
pub proof fn lemma_digits_value_prefix(ds: Seq<char>, n: int)
    requires
        0 <= n <= ds.len(),
        all_digits(ds),
    ensures
        digits_value(ds.take(n)) <= digits_value(ds),
    decreases ds.len(),
{
    if n < ds.len() {
        assert(is_digit(ds[ds.len() - 1]));
        assert(ds.drop_last().take(n) =~= ds.take(n));
        lemma_digits_value_prefix(ds.drop_last(), n);
    } else {
        assert(ds.take(n) =~= ds);
    }
}

/// The form `(quote o)`.
pub fn wrap_quote(o: ObjP) -> (p: ObjP)
    ensures
        p@ == list2_spec(Sexp::Symbol("quote"@), o@),
{
    cons(&make_symbol("quote"), &cons(&o, &nil()))
}

/// The pair of two things that were read; where an integer was out of
/// range in either, the first such.
fn pair_up(first: Result<ObjP, usize>, rest: Result<ObjP, usize>) -> (r: Result<ObjP, usize>)
    ensures
        datum_view(r) == paired(datum_view(first), datum_view(rest)),
{
    match first {
        Ok(a) => match rest {
            Ok(d) => Ok(cons(&a, &d)),
            Err(at) => Err(at),
        },
        Err(at) => Err(at),
    }
}

/// The parser for the text of one expression.
pub struct SexpParser {
    chars: Vec<char>,
}

impl View for SexpParser {
    type V = Seq<char>;

    /// The characters of the text.
    closed spec fn view(&self) -> Seq<char> {
        self.chars@
    }
}

impl SexpParser {
    /// A parser for `input`.
    pub fn new(input: &str) -> (parser: Self)
        ensures
            parser@ == input@,
    {
        let mut chars: Vec<char> = Vec::new();
        for c in it: input.chars()
            invariant
                chars@ == it.seq().take(it.index()),
                it.seq() == input@,
        {
            chars.push(c);
        }
        SexpParser { chars }
    }

    /// The offset of the first character from `from` on that is no space.
    fn skip_spaces(&self, from: usize) -> (to: usize)
        requires
            from <= self@.len(),
        ensures
            to == skip_spaces(self@, from as nat),
            from <= to <= self@.len(),
    {
        let mut at = from;
        while at < self.chars.len() && space(self.chars[at])
            invariant
                from <= at <= self.chars@.len(),
                skip_spaces(self.chars@, at as nat) == skip_spaces(self.chars@, from as nat),
            decreases self.chars@.len() - at,
        {
            at += 1;
        }
        at
    }

    /// The offset at which the atom that starts at `from` ends.
    fn atom_end(&self, from: usize) -> (to: usize)
        requires
            from <= self@.len(),
        ensures
            to == atom_end(self@, from as nat),
            from <= to <= self@.len(),
    {
        let mut at = from;
        while at < self.chars.len() && symbol_char(self.chars[at])
            invariant
                from <= at <= self.chars@.len(),
                atom_end(self.chars@, at as nat) == atom_end(self.chars@, from as nat),
            decreases self.chars@.len() - at,
        {
            at += 1;
        }
        at
    }

    /// Whether only digits stand from `from` up to `to`.
    fn all_digits(&self, from: usize, to: usize) -> (b: bool)
        requires
            from <= to <= self@.len(),
        ensures
            b == all_digits(self@.subrange(from as int, to as int)),
    {
        let ghost t = self.chars@.subrange(from as int, to as int);
        let mut at = from;
        while at < to
            invariant
                from <= at <= to <= self.chars@.len(),
                t == self.chars@.subrange(from as int, to as int),
                forall|i: int| 0 <= i < at - from ==> is_digit(#[trigger] t[i]),
            decreases to - at,
        {
            let c = self.chars[at];
            if !('0' <= c && c <= '9') {
                assert(!is_digit(t[at - from]));
                return false;
            }
            at += 1;
        }
        true
    }

    /// The number that the digits from `from` up to `to` stand for, unless
    /// it is more than `limit`.
    fn magnitude(&self, from: usize, to: usize, limit: u64) -> (r: Option<u64>)
        requires
            from <= to <= self@.len(),
            all_digits(self@.subrange(from as int, to as int)),
            limit >= 9,
        ensures
            match r {
                Some(m) => m == digits_value(self@.subrange(from as int, to as int)) && m <= limit,
                None => digits_value(self@.subrange(from as int, to as int)) > limit,
            },
    {
        let ghost t = self.chars@.subrange(from as int, to as int);
        let mut value: u64 = 0;
        let mut at = from;
        assert(t.take(0) =~= Seq::<char>::empty());
        while at < to
            invariant
                from <= at <= to <= self.chars@.len(),
                t == self.chars@.subrange(from as int, to as int),
                all_digits(t),
                value == digits_value(t.take(at - from)),
                value <= limit,
                limit >= 9,
            decreases to - at,
        {
            let c = self.chars[at];
            assert(is_digit(t[at - from]));
            let d: u64 = (c as u64) - 48;
            proof {
                let longer = t.take(at + 1 - from);
                assert(longer.drop_last() =~= t.take(at - from));
                assert(longer.last() == c);
                assert(digits_value(longer) == value * 10 + d);
                lemma_digits_value_prefix(t, at + 1 - from);
            }
            if value > (limit - d) / 10 {
                return None;
            }
            value = value * 10 + d;
            at += 1;
        }
        assert(t.take(to - from) =~= t);
        Some(value)
    }

    /// Reads the atom that stands from `from` up to `to`.
    fn atom(&self, from: usize, to: usize) -> (r: Result<ObjP, usize>)
        requires
            from < to <= self@.len(),
        ensures
            datum_view(r) == atom_spec(self@.subrange(from as int, to as int), from as nat),
    {
        let ghost t = self.chars@.subrange(from as int, to as int);
        let first = self.chars[from];
        let negative = first == '-';
        let start = if first == '-' || first == '+' {
            from + 1
        } else {
            from
        };
        assert(t[0] == first);
        assert(t.skip(sign_len(t)) =~= self.chars@.subrange(start as int, to as int));
        proof {
            reveal_strlit("#t");
            reveal_strlit("#f");
        }
        if start < to && self.all_digits(start, to) {
            let limit: u64 = if negative {
                0x8000_0000_0000_0000
            } else {
                0x7fff_ffff_ffff_ffff
            };
            match self.magnitude(start, to, limit) {
                Some(m) => {
                    let value: i64 = if !negative {
                        m as i64
                    } else if m == 0x8000_0000_0000_0000 {
                        i64::MIN
                    } else {
                        -(m as i64)
                    };
                    Ok(make_fixnum(value))
                },
                None => Err(from),
            }
        } else if to - from == 2 && first == '#' && self.chars[from + 1] == 't' {
            assert(t =~= "#t"@);
            Ok(make_bool(true))
        } else if to - from == 2 && first == '#' && self.chars[from + 1] == 'f' {
            assert(t =~= "#f"@);
            Ok(make_bool(false))
        } else {
            assert(t != "#t"@ && t != "#f"@) by {
                if t.len() == 2 {
                    assert(t[1] == self.chars@[from + 1]);
                }
            }
            let mut name = String::new();
            let mut at = from;
            while at < to
                invariant
                    from <= at <= to <= self.chars@.len(),
                    name@ == self.chars@.subrange(from as int, at as int),
                decreases to - at,
            {
                push_char(&mut name, self.chars[at]);
                assert(self.chars@.subrange(from as int, at + 1) =~= self.chars@.subrange(
                    from as int,
                    at as int,
                ).push(self.chars@[at as int]));
                at += 1;
            }
            Ok(make_symbol(name.as_str()))
        }
    }

    /// Reads one expression from `from` on.
    fn read_inner(&self, from: usize) -> (r: Result<(Result<ObjP, usize>, usize), usize>)
        requires
            from <= self@.len(),
        ensures
            parsed_view(r) == parse_expr(self@, from as nat),
        decreases self@.len() - from, 0nat,
    {
        let at = self.skip_spaces(from);
        if at >= self.chars.len() {
            return Err(at);
        }
        let c = self.chars[at];
        if c == '(' {
            self.read_list(at + 1, true)
        } else if c == '\'' {
            match self.read_inner(at + 1) {
                Ok((Ok(x), next)) => Ok((Ok(wrap_quote(x)), next)),
                Ok((Err(e), next)) => Ok((Err(e), next)),
                Err(e) => Err(e),
            }
        } else if symbol_char(c) {
            let end = self.atom_end(at);
            proof {
                lemma_atom_end_bounds(self@, at as nat);
            }
            Ok((self.atom(at, end), end))
        } else {
            Err(at)
        }
    }

    /// Reads the rest of a list from `from` on.
    fn read_list(&self, from: usize, first: bool) -> (r: Result<
        (Result<ObjP, usize>, usize),
        usize,
    >)
        requires
            from <= self@.len(),
        ensures
            parsed_view(r) == parse_list(self@, from as nat, first),
        decreases self@.len() - from, 1nat,
    {
        let at = self.skip_spaces(from);
        if at >= self.chars.len() {
            return Err(at);
        }
        let c = self.chars[at];
        if c == ')' {
            Ok((Ok(nil()), at + 1))
        } else if c == '.' && !first {
            proof {
                lemma_parse_advances(self@, (at + 1) as nat, false);
            }
            match self.read_inner(at + 1) {
                Ok((d, next)) => {
                    let close = self.skip_spaces(next);
                    if close < self.chars.len() && self.chars[close] == ')' {
                        Ok((d, close + 1))
                    } else {
                        Err(close)
                    }
                },
                Err(e) => Err(e),
            }
        } else {
            proof {
                lemma_parse_advances(self@, at as nat, false);
            }
            match self.read_inner(at) {
                Ok((d, next)) => match self.read_list(next, false) {
                    Ok((rest, end)) => Ok((pair_up(d, rest), end)),
                    Err(e) => Err(e),
                },
                Err(e) => Err(e),
            }
        }
    }

    /// Reads the text as one expression.
    pub fn parse(&self) -> (r: Result<ObjP, ReadError>)
        ensures
            read_view(r) == read_spec(self@),
            r matches Err(ReadError::Parse(at)) ==> at <= self@.len(),
            r matches Err(ReadError::Fixnum(at)) ==> at < self@.len(),
    {
        proof {
            lemma_parse_advances(self@, 0, false);
        }
        match self.read_inner(0) {
            Ok((d, next)) => {
                let end = self.skip_spaces(next);
                if end < self.chars.len() {
                    Err(ReadError::Parse(end))
                } else {
                    match d {
                        Ok(x) => Ok(x),
                        Err(at) => Err(ReadError::Fixnum(at)),
                    }
                }
            },
            Err(at) => Err(ReadError::Parse(at)),
        }
    }
}

/// Reads `input` as one expression.
pub fn read(input: &str) -> (r: Result<ObjP, ReadError>)
    ensures
        read_view(r) == read_spec(input@),
        r matches Err(ReadError::Parse(at)) ==> at <= input@.len(),
        r matches Err(ReadError::Fixnum(at)) ==> at < input@.len(),
{
    SexpParser::new(input).parse()
}

} // verus!
