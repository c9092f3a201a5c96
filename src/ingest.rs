use vstd::prelude::*;
use vstd::string::StrSliceExecFns;

use debruijn::dna_string::DnaString;

use crate::allele::{Allele, AlleleView};
use crate::parser::{parse_spec, AlleleParser, ParseError, ParseFailure};

verus! {

#[verifier::external_type_specification]
#[verifier::external_body]
pub struct ExDnaString(DnaString);

/// The 2-bit base codes that a packed DNA string holds, in order.
pub uninterp spec fn dna_bases(d: DnaString) -> Seq<u8>;

/// The code of an unambiguous nucleotide, in either case.
pub open spec fn base_code(b: u8) -> Option<u8> {
    if b == 65 || b == 97 {
        Some(0u8)
    } else if b == 67 || b == 99 {
        Some(1u8)
    } else if b == 71 || b == 103 {
        Some(2u8)
    } else if b == 84 || b == 116 {
        Some(3u8)
    } else {
        None
    }
}

/// `d` holds one code per byte of `seq`: the nucleotide's own code where
/// there is one, and some code below four where the byte is ambiguous.
pub open spec fn encodes(d: Seq<u8>, seq: Seq<u8>) -> bool {
    &&& d.len() == seq.len()
    &&& forall|i: int|
        0 <= i < seq.len() ==> #[trigger] d[i] < 4 && (base_code(seq[i]) matches Some(c) ==> d[i]
            == c)
}

/// Relies on debruijn's DnaString::from_acgt_bytes_hashn: one base per input
/// byte, A/C/G/T in either case coded 0 to 3, any other byte given a code
/// below 4 taken from a hash of the record name and the position.
#[verifier::external_body]
fn encode_sequence(seq: &[u8], name: &str) -> (r: DnaString)
    ensures
        encodes(dna_bases(r), seq@),
{
    DnaString::from_acgt_bytes_hashn(seq, name.as_bytes())
}

/// One FASTA record: its identifier, the rest of its header line if any, and
/// its sequence.
pub struct FastaRecord {
    pub id: String,
    pub desc: Option<String>,
    pub seq: Vec<u8>,
}

pub struct RecordView {
    pub id: Seq<char>,
    pub desc: Option<Seq<char>>,
    pub seq: Seq<u8>,
}

impl View for FastaRecord {
    type V = RecordView;

    open spec fn view(&self) -> RecordView {
        RecordView {
            id: self.id@,
            desc: match self.desc {
                Some(d) => Some(d@),
                None => None,
            },
            seq: self.seq@,
        }
    }
}

/// Why ingestion stopped, as mathematical values.
pub enum IngestFailure {
    MissingAnnotation,
    Parse(ParseFailure),
    Source(Seq<char>),
}

/// Why ingestion stopped.
#[derive(Debug)]
pub enum IngestError {
    /// A record has no description, or one without a token, to read a
    /// designation from.
    MissingAnnotation,
    /// A record's designation does not parse.
    Parse(ParseError),
    /// The record source could not deliver a record; its message is kept here.
    Source(String),
}

impl View for IngestError {
    type V = IngestFailure;

    open spec fn view(&self) -> IngestFailure {
        match self {
            IngestError::MissingAnnotation => IngestFailure::MissingAnnotation,
            IngestError::Parse(e) => IngestFailure::Parse(e@),
            IngestError::Source(m) => IngestFailure::Source(m@),
        }
    }
}

/// The characters of Unicode's White_Space property.
pub open spec fn is_blank(c: char) -> bool {
    ||| ('\u{9}' <= c && c <= '\u{d}')
    ||| c == ' '
    ||| c == '\u{85}'
    ||| c == '\u{a0}'
    ||| c == '\u{1680}'
    ||| ('\u{2000}' <= c && c <= '\u{200a}')
    ||| c == '\u{2028}'
    ||| c == '\u{2029}'
    ||| c == '\u{202f}'
    ||| c == '\u{205f}'
    ||| c == '\u{3000}'
}

/// `d[a..b]` is the first token of `d`: only blanks before `a`, a non-blank
/// or the end at `a`, no blank from `a` to `b`, and a blank or the end at `b`.
pub open spec fn token_bounds(d: Seq<char>, a: int, b: int) -> bool {
    &&& 0 <= a <= b <= d.len()
    &&& forall|j: int| 0 <= j < a ==> is_blank(#[trigger] d[j])
    &&& (a == d.len() || !is_blank(d[a]))
    &&& forall|j: int| a <= j < b ==> !is_blank(#[trigger] d[j])
    &&& (b == d.len() || is_blank(d[b]))
}

/// The first whitespace-delimited token of `d`; empty when `d` holds only
/// whitespace.
pub open spec fn first_token(d: Seq<char>) -> Seq<char> {
    let p = choose|p: (int, int)| token_bounds(d, p.0, p.1);
    d.subrange(p.0, p.1)
}

/// The designation that a record carries, or why it has none.
pub open spec fn record_outcome(r: RecordView) -> Result<AlleleView, IngestFailure> {
    match r.desc {
        None => Err(IngestFailure::MissingAnnotation),
        Some(d) => if first_token(d).len() == 0 {
            Err(IngestFailure::MissingAnnotation)
        } else {
            match parse_spec(first_token(d)) {
                Ok(a) => Ok(a),
                Err(e) => Err(IngestFailure::Parse(e)),
            }
        },
    }
}

/// The failure of the first record that fails, if one does.
pub open spec fn first_failure(rs: Seq<RecordView>) -> Option<IngestFailure>
    decreases rs.len(),
{
    if rs.len() == 0 {
        None
    } else {
        match first_failure(rs.drop_last()) {
            Some(e) => Some(e),
            None => match record_outcome(rs.last()) {
                Ok(_) => None,
                Err(e) => Some(e),
            },
        }
    }
}

/// The identifier-to-allele map of a list of entries; a later entry replaces
/// an earlier one with the same identifier.
pub open spec fn entry_map(es: Seq<(Seq<char>, AlleleView)>) -> Map<Seq<char>, AlleleView>
    decreases es.len(),
{
    if es.len() == 0 {
        Map::empty()
    } else {
        entry_map(es.drop_last()).insert(es.last().0, es.last().1)
    }
}

/// The encoded sequences, designations and identified alleles read so far,
/// one of each per record in record order.
pub struct CdsCollection {
    seqs: Vec<DnaString>,
    designations: Vec<String>,
    entries: Vec<(String, Allele)>,
}

impl CdsCollection {
    pub closed spec fn seq_bases(&self) -> Seq<Seq<u8>> {
        self.seqs@.map_values(|d: DnaString| dna_bases(d))
    }

    pub closed spec fn designations_view(&self) -> Seq<Seq<char>> {
        self.designations@.map_values(|s: String| s@)
    }

    pub closed spec fn entries_view(&self) -> Seq<(Seq<char>, AlleleView)> {
        self.entries@.map_values(|e: (String, Allele)| (e.0@, e.1@))
    }

    /// Which allele each identifier names.
    pub open spec fn id_map(&self) -> Map<Seq<char>, AlleleView> {
        entry_map(self.entries_view())
    }

    pub open spec fn wf(&self) -> bool {
        &&& self.seq_bases().len() == self.designations_view().len()
        &&& self.entries_view().len() == self.designations_view().len()
    }

    pub fn new() -> (r: CdsCollection)
        ensures
            r.wf(),
            r.seq_bases() == Seq::<Seq<u8>>::empty(),
            r.designations_view() == Seq::<Seq<char>>::empty(),
            r.entries_view() == Seq::<(Seq<char>, AlleleView)>::empty(),
    {
        let r = CdsCollection { seqs: Vec::new(), designations: Vec::new(), entries: Vec::new() };
        assert(r.seq_bases() =~= Seq::<Seq<u8>>::empty());
        assert(r.designations_view() =~= Seq::<Seq<char>>::empty());
        assert(r.entries_view() =~= Seq::<(Seq<char>, AlleleView)>::empty());
        r
    }

    /// How many records were taken in.
    pub fn len(&self) -> (r: usize)
        requires
            self.wf(),
        ensures
            r == self.designations_view().len(),
    {
        self.designations.len()
    }

    /// Takes in one record: its encoded sequence, the first token of its
    /// description, and its identifier with the allele that token designates.
    /// Leaves the collection as it was when the record fails.
    pub fn add_record(&mut self, parser: &AlleleParser, rec: &FastaRecord) -> (r: Result<
        (),
        IngestError,
    >)
        requires
            old(self).wf(),
        ensures
            final(self).wf(),
            match record_outcome(rec@) {
                Err(e) => r matches Err(x) && x@ == e && *final(self) == *old(self),
                Ok(a) => {
                    &&& r is Ok
                    &&& final(self).designations_view() == old(self).designations_view().push(
                        first_token(rec@.desc.unwrap()),
                    )
                    &&& final(self).entries_view() == old(self).entries_view().push((rec@.id, a))
                    &&& final(self).id_map() == old(self).id_map().insert(rec@.id, a)
                    &&& final(self).seq_bases().len() == old(self).seq_bases().len() + 1
                    &&& final(self).seq_bases().drop_last() == old(self).seq_bases()
                    &&& encodes(final(self).seq_bases().last(), rec@.seq)
                },
            },
    {
        let desc = match &rec.desc {
            Some(d) => d.as_str(),
            None => {
                return Err(IngestError::MissingAnnotation);
            },
        };
        let token = first_token_of(desc);
        if token.is_empty() {
            return Err(IngestError::MissingAnnotation);
        }
        let allele = match parser.parse(token) {
            Ok(a) => a,
            Err(e) => {
                return Err(IngestError::Parse(e));
            },
        };
        let dna = encode_sequence(rec.seq.as_slice(), rec.id.as_str());
        let ghost pre = *self;
        self.seqs.push(dna);
        self.designations.push(token.to_owned());
        self.entries.push((rec.id.clone(), allele));
        assert(self.seq_bases() =~= pre.seq_bases().push(dna_bases(dna)));
        assert(self.designations_view() =~= pre.designations_view().push(token@));
        assert(self.entries_view() =~= pre.entries_view().push((rec@.id, allele@)));
        assert(self.entries_view().drop_last() =~= pre.entries_view());
        assert(self.seq_bases().drop_last() =~= pre.seq_bases());
        Ok(())
    }

    /// The encoded sequences, the designations and the identified alleles, in
    /// record order.
    pub fn into_parts(self) -> (r: (Vec<DnaString>, Vec<String>, Vec<(String, Allele)>))
        ensures
            r.0@.map_values(|d: DnaString| dna_bases(d)) == self.seq_bases(),
            r.1@.map_values(|s: String| s@) == self.designations_view(),
            r.2@.map_values(|e: (String, Allele)| (e.0@, e.1@)) == self.entries_view(),
    {
        (self.seqs, self.designations, self.entries)
    }
}

/// The first whitespace-delimited token of `d`.
fn first_token_of(d: &str) -> (r: &str)
    ensures
        r@ == first_token(d@),
{
    let n = d.unicode_len();
    let mut a: usize = 0;
    while a < n && is_blank_char(d.get_char(a))
        invariant
            n == d@.len(),
            a <= n,
            forall|j: int| 0 <= j < a ==> is_blank(#[trigger] d@[j]),
        decreases n - a,
    {
        a = a + 1;
    }
    let mut b: usize = a;
    while b < n && !is_blank_char(d.get_char(b))
        invariant
            n == d@.len(),
            a <= b <= n,
            forall|j: int| a <= j < b ==> !is_blank(#[trigger] d@[j]),
        decreases n - b,
    {
        b = b + 1;
    }
    let ghost w = (a as int, b as int);
    assert(token_bounds(d@, w.0, w.1));
    let ghost p = choose|p: (int, int)| token_bounds(d@, p.0, p.1);
    assert(p.0 == a) by {
        if p.0 < a {
            assert(is_blank(d@[p.0]));
        } else if p.0 > a {
            assert(is_blank(d@[a as int]));
        }
    }
    assert(p.1 == b) by {
        if p.1 < b {
            assert(!is_blank(d@[p.1]));
        } else if p.1 > b {
            assert(!is_blank(d@[b as int]));
        }
    }
    d.substring_char(a, b)
}

fn is_blank_char(c: char) -> (r: bool)
    ensures
        r == is_blank(c),
{
    ('\u{9}' <= c && c <= '\u{d}') || c == ' ' || c == '\u{85}' || c == '\u{a0}' || c
        == '\u{1680}' || ('\u{2000}' <= c && c <= '\u{200a}') || c == '\u{2028}' || c
        == '\u{2029}' || c == '\u{202f}' || c == '\u{205f}' || c == '\u{3000}'
}

/// Takes in every record, in order, and stops at the first that fails.
pub fn ingest(records: &[FastaRecord]) -> (r: Result<CdsCollection, IngestError>)
    ensures
        match first_failure(records@.map_values(|x: FastaRecord| x@)) {
            Some(e) => r matches Err(x) && x@ == e,
            None => r matches Ok(c) && {
                &&& c.wf()
                &&& c.designations_view().len() == records@.len()
                &&& forall|i: int|
                    0 <= i < records@.len() ==> {
                        &&& (#[trigger] records@[i])@.desc is Some
                        &&& c.designations_view()[i] == first_token(records@[i]@.desc.unwrap())
                        &&& record_outcome(records@[i]@) == Ok::<AlleleView, IngestFailure>(
                            c.entries_view()[i].1,
                        )
                        &&& c.entries_view()[i].0 == records@[i]@.id
                        &&& encodes(c.seq_bases()[i], records@[i]@.seq)
                    }
            },
        },
{
    let ghost rs = records@.map_values(|x: FastaRecord| x@);
    let parser = AlleleParser::new();
    let mut c = CdsCollection::new();
    let mut i: usize = 0;
    while i < records.len()
        invariant
            rs == records@.map_values(|x: FastaRecord| x@),
            i <= records@.len(),
            c.wf(),
            first_failure(rs.subrange(0, i as int)) is None,
            c.designations_view().len() == i,
            forall|j: int|
                0 <= j < i ==> {
                    &&& (#[trigger] records@[j])@.desc is Some
                    &&& c.designations_view()[j] == first_token(records@[j]@.desc.unwrap())
                    &&& record_outcome(records@[j]@) == Ok::<AlleleView, IngestFailure>(
                        c.entries_view()[j].1,
                    )
                    &&& c.entries_view()[j].0 == records@[j]@.id
                    &&& encodes(c.seq_bases()[j], records@[j]@.seq)
                },
        decreases records@.len() - i,
    {
        let ghost pre = c;
        assert(rs.subrange(0, i + 1).drop_last() =~= rs.subrange(0, i as int));
        match c.add_record(&parser, &records[i]) {
            Ok(()) => {},
            Err(e) => {
                proof {
                    lemma_failure_extends(rs, i as int + 1);
                }
                return Err(e);
            },
        }
        assert forall|j: int| 0 <= j < i implies c.seq_bases()[j] == pre.seq_bases()[j] by {
            assert(c.seq_bases().drop_last()[j] == c.seq_bases()[j]);
        }
        i = i + 1;
    }
    assert(rs.subrange(0, i as int) =~= rs);
    Ok(c)
}

/// A record without a description, after records that all carry a valid
/// designation, makes ingestion fail with a missing annotation, and nothing
/// else is returned.
pub proof fn lemma_missing_annotation_fails(rs: Seq<RecordView>, i: int)
    requires
        0 <= i < rs.len(),
        rs[i].desc is None,
        forall|j: int| 0 <= j < i ==> record_outcome(#[trigger] rs[j]) is Ok,
    ensures
        first_failure(rs) == Some(IngestFailure::MissingAnnotation),
{
    lemma_no_failure_before(rs, i);
    assert(rs.subrange(0, i + 1).drop_last() =~= rs.subrange(0, i));
    lemma_failure_extends(rs, i + 1);
}

/// Records that all succeed have no failure.
proof fn lemma_no_failure_before(rs: Seq<RecordView>, i: int)
    requires
        0 <= i <= rs.len(),
        forall|j: int| 0 <= j < i ==> record_outcome(#[trigger] rs[j]) is Ok,
    ensures
        first_failure(rs.subrange(0, i)) is None,
    decreases i,
{
    if i > 0 {
        assert(rs.subrange(0, i).drop_last() =~= rs.subrange(0, i - 1));
        lemma_no_failure_before(rs, i - 1);
    }
}

/// A failure among the first `k` records is the first failure of all of them.
proof fn lemma_failure_extends(rs: Seq<RecordView>, k: int)
    requires
        0 <= k <= rs.len(),
        first_failure(rs.subrange(0, k)) is Some,
    ensures
        first_failure(rs) == first_failure(rs.subrange(0, k)),
    decreases rs.len(),
{
    if k < rs.len() {
        assert(rs.drop_last().subrange(0, k) =~= rs.subrange(0, k));
        lemma_failure_extends(rs.drop_last(), k);
    } else {
        assert(rs.subrange(0, k) =~= rs);
    }
}

} // verus!
