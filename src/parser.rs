use vstd::prelude::*;
use vstd::string::StrSliceExecFns;

use crate::allele::{Allele, AlleleView};

verus! {

/// The shape of a designation: gene, `*`, colon-separated numbers, and an
/// optional suffix letter.
pub const DESIGNATION_PATTERN: &'static str = "^[A-Z0-9]+[*][0-9]+(:[0-9]+)*[A-Z]?$";

/// The run of colon-separated numbers in the part after the `*`.
pub const FIELD_PATTERN: &'static str = "[0-9]+(:[0-9]+)*";

pub open spec fn is_digit(c: char) -> bool {
    '0' <= c && c <= '9'
}

pub open spec fn is_upper(c: char) -> bool {
    'A' <= c && c <= 'Z'
}

pub open spec fn is_gene_char(c: char) -> bool {
    is_upper(c) || is_digit(c)
}

/// `t` is one or more runs of digits separated by single colons.
pub open spec fn is_field_list(t: Seq<char>) -> bool {
    &&& t.len() > 0
    &&& forall|i: int| 0 <= i < t.len() ==> is_digit(#[trigger] t[i]) || t[i] == ':'
    &&& is_digit(t[0])
    &&& is_digit(t.last())
    &&& forall|i: int| 0 <= i < t.len() - 1 && #[trigger] t[i] == ':' ==> t[i + 1] != ':'
}

/// The part after the `*` without its suffix letter, if it has one.
pub open spec fn field_part(u: Seq<char>) -> Seq<char> {
    if u.len() > 0 && is_upper(u.last()) {
        u.drop_last()
    } else {
        u
    }
}

/// `s` is a gene of one or more letters and digits, a `*` at position `i`,
/// and a field list that may end in one upper-case letter.
pub open spec fn split_at_star(s: Seq<char>, i: int) -> bool {
    &&& 0 < i < s.len()
    &&& s[i] == '*'
    &&& forall|j: int| 0 <= j < i ==> is_gene_char(#[trigger] s[j])
    &&& is_field_list(field_part(s.subrange(i + 1, s.len() as int)))
}

/// `s` matches the designation grammar.
pub open spec fn is_designation(s: Seq<char>) -> bool {
    exists|i: int| split_at_star(s, i)
}

/// The position of the `*` of a designation.
pub open spec fn star_index(s: Seq<char>) -> int {
    choose|i: int| split_at_star(s, i)
}

pub open spec fn digit_value(c: char) -> nat {
    (c as u32 - '0' as u32) as nat
}

/// The numbers of a field list, read left to right; a colon starts a new one.
pub open spec fn field_values(t: Seq<char>) -> Seq<nat>
    decreases t.len(),
{
    if t.len() == 0 {
        seq![0nat]
    } else {
        let v = field_values(t.drop_last());
        if t.last() == ':' {
            v.push(0nat)
        } else {
            v.update(v.len() - 1, v.last() * 10 + digit_value(t.last()))
        }
    }
}

/// Every number that an allele keeps (the first four) fits in 16 bits.
pub open spec fn retained_fit(v: Seq<nat>) -> bool {
    forall|j: int| 0 <= j < v.len() && j < 4 ==> #[trigger] v[j] <= u16::MAX
}

pub open spec fn field_at(v: Seq<nat>, j: int) -> Option<u16> {
    if j < v.len() {
        Some(v[j] as u16)
    } else {
        None
    }
}

/// The allele of a gene and its numbers; numbers past the fourth are dropped.
pub open spec fn allele_of(gene: Seq<char>, v: Seq<nat>) -> AlleleView {
    AlleleView {
        gene,
        f1: Some(v[0] as u16),
        f2: field_at(v, 1),
        f3: field_at(v, 2),
        f4: field_at(v, 3),
    }
}

/// Why a designation was refused, as mathematical values.
pub enum ParseFailure {
    InvalidFormat(Seq<char>),
    MissingSeparator,
    NoNumericFields,
    FieldOverflow,
}

/// Why a designation was refused.
#[derive(Debug)]
pub enum ParseError {
    /// The text does not match the designation grammar; it is kept here.
    InvalidFormat(String),
    /// No `*` separates gene and fields.
    MissingSeparator,
    /// No number follows the `*`.
    NoNumericFields,
    /// One of the kept numbers does not fit in 16 bits.
    FieldOverflow,
}

impl View for ParseError {
    type V = ParseFailure;

    open spec fn view(&self) -> ParseFailure {
        match self {
            ParseError::InvalidFormat(t) => ParseFailure::InvalidFormat(t@),
            ParseError::MissingSeparator => ParseFailure::MissingSeparator,
            ParseError::NoNumericFields => ParseFailure::NoNumericFields,
            ParseError::FieldOverflow => ParseFailure::FieldOverflow,
        }
    }
}

/// What parsing `s` gives.
pub open spec fn parse_spec(s: Seq<char>) -> Result<AlleleView, ParseFailure> {
    if !is_designation(s) {
        Err(ParseFailure::InvalidFormat(s))
    } else {
        let i = star_index(s);
        let v = field_values(field_part(s.subrange(i + 1, s.len() as int)));
        if !retained_fit(v) {
            Err(ParseFailure::FieldOverflow)
        } else {
            Ok(allele_of(s.subrange(0, i), v))
        }
    }
}

pub open spec fn parse_view(r: Result<Allele, ParseError>) -> Result<AlleleView, ParseFailure> {
    match r {
        Ok(a) => Ok(a@),
        Err(e) => Err(e@),
    }
}

/// Relies on regex::Regex::new and regex::Regex::is_match: for the designation
/// pattern, which compiles, whether `s` matches the grammar it writes.
#[verifier::external_body]
fn matches_designation(pattern: &str, s: &str) -> (r: bool)
    requires
        pattern@ == DESIGNATION_PATTERN@,
    ensures
        r == is_designation(s@),
{
    match regex::Regex::new(pattern) {
        Ok(re) => re.is_match(s),
        Err(_) => false,
    }
}

/// Relies on regex::Regex::new and regex::Regex::find: for the field pattern
/// and a text that is a field list with perhaps a final letter, the leftmost
/// match is the field list.
#[verifier::external_body]
fn find_field_list(pattern: &str, suffix: &str) -> (r: Option<String>)
    requires
        pattern@ == FIELD_PATTERN@,
        is_field_list(field_part(suffix@)),
    ensures
        r is Some,
        r matches Some(t) ==> t@ == field_part(suffix@),
{
    match regex::Regex::new(pattern) {
        Ok(re) => match re.find(suffix) {
            Some(m) => Some(m.as_str().to_string()),
            None => None,
        },
        Err(_) => None,
    }
}

pub open spec fn kept_count(v: Seq<nat>) -> int {
    if v.len() < 4 {
        v.len() as int
    } else {
        4
    }
}

/// The numbers of a field list that an allele keeps, or `None` when one of
/// them does not fit in 16 bits.
fn field_numbers(t: &str) -> (r: Option<Vec<u16>>)
    requires
        is_field_list(t@),
    ensures
        field_values(t@).len() >= 1,
        r is Some <==> retained_fit(field_values(t@)),
        r matches Some(v) ==> v@.len() == kept_count(field_values(t@)) && forall|j: int|
            0 <= j < v@.len() ==> #[trigger] v@[j] as nat == field_values(t@)[j],
{
    let n = t.unicode_len();
    let mut vals: Vec<u16> = Vec::new();
    let mut cur: u32 = 0;
    let mut overflow = false;
    let mut k: usize = 0;
    assert(t@.subrange(0, 0) =~= Seq::<char>::empty());
    while k < n
        invariant
            n == t@.len(),
            is_field_list(t@),
            k <= n,
            field_values(t@.subrange(0, k as int)).len() >= 1,
            cur as nat == if field_values(t@.subrange(0, k as int)).last() < 65536 {
                field_values(t@.subrange(0, k as int)).last()
            } else {
                65536
            },
            vals@.len() == kept_count(field_values(t@.subrange(0, k as int)).drop_last()),
            forall|j: int|
                0 <= j < vals@.len() && #[trigger] field_values(t@.subrange(0, k as int))[j]
                    <= u16::MAX ==> vals@[j] as nat == field_values(t@.subrange(0, k as int))[j],
            !overflow <==> forall|j: int|
                0 <= j < vals@.len() ==> #[trigger] field_values(t@.subrange(0, k as int))[j]
                    <= u16::MAX,
        decreases n - k,
    {
        let ghost prev = field_values(t@.subrange(0, k as int));
        let c = t.get_char(k);
        assert(t@.subrange(0, k + 1).drop_last() =~= t@.subrange(0, k as int));
        assert(t@.subrange(0, k + 1).last() == c);
        let ghost next = field_values(t@.subrange(0, k + 1));
        if c == ':' {
            assert(next == prev.push(0nat));
            assert(forall|j: int| 0 <= j < prev.len() ==> next[j] == prev[j]);
            if vals.len() < 4 {
                if cur > 65535 {
                    overflow = true;
                    vals.push(0);
                    assert(next[vals@.len() - 1] > u16::MAX);
                } else {
                    vals.push(cur as u16);
                    assert(next[vals@.len() - 1] <= u16::MAX);
                }
            }
            cur = 0;
            assert(next.drop_last() =~= prev);
        } else {
            assert(is_digit(c));
            let d = (c as u32) - ('0' as u32);
            assert(next == prev.update(prev.len() - 1, prev.last() * 10 + digit_value(c)));
            assert(next.drop_last() =~= prev.drop_last());
            assert(forall|j: int| 0 <= j < prev.len() - 1 ==> next[j] == prev[j]);
            let wide = cur * 10 + d;
            if wide > 65536 {
                cur = 65536;
            } else {
                cur = wide;
            }
            assert(prev.last() >= 65536 ==> prev.last() * 10 + d >= 65536) by (nonlinear_arith);
        }
        k = k + 1;
    }
    assert(t@.subrange(0, n as int) =~= t@);
    if vals.len() < 4 {
        if cur > 65535 {
            overflow = true;
        } else {
            vals.push(cur as u16);
        }
    }
    if overflow {
        None
    } else {
        Some(vals)
    }
}

/// Every string of the designation grammar whose kept numbers fit in 16 bits
/// parses, and the allele holds its gene and each of its first four numbers
/// exactly, with no field after the last number present.
pub proof fn lemma_parse_round_trip(s: Seq<char>)
    requires
        is_designation(s),
        retained_fit(field_values(field_part(s.subrange(star_index(s) + 1, s.len() as int)))),
    ensures
        parse_spec(s) matches Ok(a) && {
            let v = field_values(field_part(s.subrange(star_index(s) + 1, s.len() as int)));
            &&& a.gene == s.subrange(0, star_index(s))
            &&& forall|j: int| 0 <= j < 4 ==> #[trigger] a.level(j + 1) == field_at(v, j)
            &&& forall|j: int|
                0 <= j < v.len() && j < 4 ==> #[trigger] field_at(v, j) == Some(v[j] as u16)
                    && v[j] <= u16::MAX
            &&& a.wf()
        },
{
    let v = field_values(field_part(s.subrange(star_index(s) + 1, s.len() as int)));
    lemma_field_values_nonempty(field_part(s.subrange(star_index(s) + 1, s.len() as int)));
    assert(v[0] <= u16::MAX);
}

/// A field list always has a first number.
pub proof fn lemma_field_values_nonempty(t: Seq<char>)
    ensures
        field_values(t).len() >= 1,
    decreases t.len(),
{
    if t.len() > 0 {
        lemma_field_values_nonempty(t.drop_last());
    }
}

/// Every string outside the designation grammar is refused, and the error
/// carries the string.
pub proof fn lemma_parse_rejects(s: Seq<char>)
    requires
        !is_designation(s),
    ensures
        parse_spec(s) == Err::<AlleleView, ParseFailure>(ParseFailure::InvalidFormat(s)),
{
}

/// Reads designation strings into alleles.
pub struct AlleleParser {}

impl AlleleParser {
    pub fn new() -> (r: AlleleParser) {
        AlleleParser {  }
    }

    /// The allele that `s` designates: the gene before the `*` and the first
    /// four numbers after it; a final letter is allowed and ignored.
    pub fn parse(&self, s: &str) -> (r: Result<Allele, ParseError>)
        ensures
            parse_view(r) == parse_spec(s@),
    {
        if !matches_designation(DESIGNATION_PATTERN, s) {
            return Err(ParseError::InvalidFormat(s.to_owned()));
        }
        let ghost k = star_index(s@);
        assert(split_at_star(s@, k));
        let n = s.unicode_len();
        let mut i: usize = 0;
        while i < n && s.get_char(i) != '*'
            invariant
                n == s@.len(),
                i <= n,
                split_at_star(s@, k),
                forall|j: int| 0 <= j < i ==> #[trigger] s@[j] != '*',
            decreases n - i,
        {
            i = i + 1;
        }
        if i == n {
            assert(s@[k] == '*');
            return Err(ParseError::MissingSeparator);
        }
        assert(i == k) by {
            if i < k {
                assert(is_gene_char(s@[i as int]));
            }
        }
        let gene = s.substring_char(0, i).to_owned();
        let suffix = s.substring_char(i + 1, n);
        let fields = match find_field_list(FIELD_PATTERN, suffix) {
            Some(f) => f,
            None => {
                return Err(ParseError::NoNumericFields);
            },
        };
        let numbers = match field_numbers(fields.as_str()) {
            Some(x) => x,
            None => {
                return Err(ParseError::FieldOverflow);
            },
        };
        let count = numbers.len();
        let f2 = if count > 1 {
            Some(numbers[1])
        } else {
            None
        };
        let f3 = if count > 2 {
            Some(numbers[2])
        } else {
            None
        };
        let f4 = if count > 3 {
            Some(numbers[3])
        } else {
            None
        };
        let a = Allele::new(gene, Some(numbers[0]), f2, f3, f4);
        assert(a@ == allele_of(s@.subrange(0, k), field_values(fields@)));
        Ok(a)
    }
}

} // verus!
