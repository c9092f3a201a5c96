use debruijn::Mer;
use hla_alleles::allele::{all_same, Allele, AlleleDb};
use hla_alleles::ingest::{ingest, CdsCollection, FastaRecord, IngestError};
use hla_alleles::parser::{AlleleParser, ParseError};

const T1: &str = "A*01:01:01:01";

#[test]
fn test_parse1() {
    let parser = AlleleParser::new();
    let al = parser.parse(T1).unwrap();
    assert_eq!(al.gene(), "A");
    assert_eq!(al.f1(), Some(1));
    assert_eq!(al.f2(), Some(1));
    assert_eq!(al.f3(), Some(1));
    assert_eq!(al.f4(), Some(1));
}

const T2: &str = "A*01:01:38L";

#[test]
fn test_parse2() {
    let parser = AlleleParser::new();
    let al = parser.parse(T2).unwrap();
    assert_eq!(al.gene(), "A");
    assert_eq!(al.f1(), Some(1));
    assert_eq!(al.f2(), Some(1));
    assert_eq!(al.f3(), Some(38));
    assert_eq!(al.f4(), None);
}

const T3: &str = "MICB*012";

#[test]
fn test_parse3() {
    let parser = AlleleParser::new();
    let al = parser.parse(T3).unwrap();
    assert_eq!(al.gene(), "MICB");
    assert_eq!(al.f1(), Some(12));
    assert_eq!(al.f2(), None);
    assert_eq!(al.f3(), None);
    assert_eq!(al.f4(), None);
}

const T4: &str = "MICB*012,5";

#[test]
fn test_parse4() {
    let parser = AlleleParser::new();
    let al = parser.parse(T4);
    assert!(al.is_err());
}

#[test]
fn parse_invalid_format_keeps_text() {
    let parser = AlleleParser::new();
    for s in ["", "A*", "*01", "a*01", "A*01:", "A*01::02", "A*01LL", "A01", "A*01:02 ", "A**01"] {
        match parser.parse(s) {
            Err(ParseError::InvalidFormat(t)) => assert_eq!(t, s),
            other => panic!("{:?} gave {:?}", s, other),
        }
    }
}

#[test]
fn parse_suffix_letter_after_one_field() {
    let parser = AlleleParser::new();
    let al = parser.parse("A*02N").unwrap();
    assert_eq!(al.gene(), "A");
    assert_eq!(al.f1(), Some(2));
    assert_eq!(al.f2(), None);
}

#[test]
fn parse_keeps_first_four_fields() {
    let parser = AlleleParser::new();
    let al = parser.parse("DRB1*03:01:01:02:07").unwrap();
    assert_eq!(al.gene(), "DRB1");
    assert_eq!(al.f1(), Some(3));
    assert_eq!(al.f2(), Some(1));
    assert_eq!(al.f3(), Some(1));
    assert_eq!(al.f4(), Some(2));
}

#[test]
fn parse_field_overflow() {
    let parser = AlleleParser::new();
    assert!(matches!(parser.parse("A*65536"), Err(ParseError::FieldOverflow)));
    assert!(matches!(parser.parse("A*01:99999"), Err(ParseError::FieldOverflow)));
    let al = parser.parse("A*65535:0").unwrap();
    assert_eq!(al.f1(), Some(65535));
    assert_eq!(al.f2(), Some(0));
    // a fifth number is dropped without being read
    let al = parser.parse("A*1:2:3:4:99999").unwrap();
    assert_eq!(al.f4(), Some(4));
}

fn allele(gene: &str, f1: u16, f2: Option<u16>, f3: Option<u16>, f4: Option<u16>) -> Allele {
    Allele::new(gene.to_string(), Some(f1), f2, f3, f4)
}

fn fields(a: &Allele) -> (String, Option<u16>, Option<u16>, Option<u16>, Option<u16>) {
    (a.gene().clone(), a.f1(), a.f2(), a.f3(), a.f4())
}

fn sample_db() -> AlleleDb {
    AlleleDb::new(vec![
        allele("A", 1, Some(1), Some(1), Some(1)),
        allele("A", 1, Some(1), Some(2), None),
        allele("A", 1, Some(2), None, None),
        allele("B", 7, Some(2), None, None),
        allele("A", 2, Some(1), None, None),
        allele("A", 1, Some(1), Some(1), Some(1)),
    ])
}

#[test]
fn lowest_common_of_no_classes() {
    assert!(sample_db().lowest_common_allele(&[]).is_none());
}

#[test]
fn lowest_common_of_one_class() {
    let db = sample_db();
    for i in 0..db.len() {
        let r = db.lowest_common_allele(&[i]).unwrap();
        assert_eq!(fields(&r), fields(db.get(i)));
    }
}

#[test]
fn lowest_common_second_field_differs() {
    let r = sample_db().lowest_common_allele(&[0, 2]).unwrap();
    assert_eq!(fields(&r), ("A".to_string(), Some(1), None, None, None));
}

#[test]
fn lowest_common_third_field_differs() {
    let r = sample_db().lowest_common_allele(&[0, 1, 5]).unwrap();
    assert_eq!(fields(&r), ("A".to_string(), Some(1), Some(1), None, None));
}

#[test]
fn lowest_common_all_fields_agree() {
    let r = sample_db().lowest_common_allele(&[0, 5]).unwrap();
    assert_eq!(fields(&r), ("A".to_string(), Some(1), Some(1), Some(1), Some(1)));
}

#[test]
fn lowest_common_different_genes() {
    assert!(sample_db().lowest_common_allele(&[0, 3]).is_none());
}

#[test]
fn lowest_common_gene_only() {
    let r = sample_db().lowest_common_allele(&[0, 4]).unwrap();
    assert_eq!(fields(&r), ("A".to_string(), None, None, None, None));
    let r = sample_db().lowest_common_allele(&[2, 0, 4, 1]).unwrap();
    assert_eq!(fields(&r), ("A".to_string(), None, None, None, None));
}

#[test]
fn lowest_common_of_gene_only_and_member() {
    let db = AlleleDb::new(vec![
        Allele::new("A".to_string(), None, None, None, None),
        allele("A", 1, Some(1), None, None),
    ]);
    let r = db.lowest_common_allele(&[0, 1]).unwrap();
    assert_eq!(fields(&r), ("A".to_string(), None, None, None, None));
}

#[test]
fn lowest_common_again_with_a_member() {
    let db = sample_db();
    let ids = [0usize, 1, 2];
    let r = db.lowest_common_allele(&ids).unwrap();
    for &m in ids.iter() {
        let again = AlleleDb::new(vec![r.duplicate(), db.get(m).duplicate()]);
        let r2 = again.lowest_common_allele(&[0, 1]).unwrap();
        assert_eq!(fields(&r2), fields(&r));
    }
}

#[test]
fn all_same_cases() {
    let empty: [u16; 0] = [];
    assert_eq!(all_same(&empty), None);
    assert_eq!(all_same(&[3u16, 3, 3]), Some(&3));
    assert_eq!(all_same(&[3u16, 3, 4]), None);
    assert_eq!(all_same(&[None, None::<u16>]), Some(&None));
    assert_eq!(all_same(&[Some(1u16), None]), None);
}

fn record(id: &str, desc: Option<&str>, seq: &[u8]) -> FastaRecord {
    FastaRecord { id: id.to_string(), desc: desc.map(|d| d.to_string()), seq: seq.to_vec() }
}

#[test]
fn ingest_reads_records_in_order() {
    let records = vec![
        record("HLA:HLA00001", Some("A*01:01:01:01 1098 bp"), b"ACGTacgt"),
        record("HLA:HLA01534", Some("A*02:53N 1098 bp"), b"GGCC"),
        record("HLA:HLA00001", Some("B*07:02 1098 bp"), b"T"),
    ];
    let (seqs, designations, entries) = ingest(&records).unwrap().into_parts();
    assert_eq!(designations, vec!["A*01:01:01:01", "A*02:53N", "B*07:02"]);
    assert_eq!(seqs.len(), 3);
    assert_eq!(seqs[0].len(), 8);
    let codes: Vec<u8> = (0..8).map(|i| seqs[0].get(i)).collect();
    assert_eq!(codes, vec![0, 1, 2, 3, 0, 1, 2, 3]);
    assert_eq!(seqs[1].get(0), 2);
    assert_eq!(seqs[1].get(3), 1);
    assert_eq!(entries.len(), 3);
    assert_eq!(entries[1].0, "HLA:HLA01534");
    assert_eq!(fields(&entries[1].1), ("A".to_string(), Some(2), Some(53), None, None));
    // the later record under one identifier wins in the map
    let map: std::collections::HashMap<String, Allele> = entries.into_iter().collect();
    assert_eq!(map.len(), 2);
    assert_eq!(map["HLA:HLA00001"].gene(), "B");
}

#[test]
fn ingest_ambiguous_base_gets_a_code() {
    let records = vec![record("x", Some("A*01"), b"ANNT")];
    let (seqs, _, _) = ingest(&records).unwrap().into_parts();
    assert_eq!(seqs[0].len(), 4);
    assert_eq!(seqs[0].get(0), 0);
    assert!(seqs[0].get(1) < 4);
    assert_eq!(seqs[0].get(3), 3);
}

#[test]
fn ingest_token_is_first_whitespace_delimited() {
    let records = vec![
        record("r1", Some("  A*01:01\t1098 bp"), b"A"),
        record("r2", Some("B*07:02\u{a0}x"), b"A"),
        record("r3", Some("C*04:01"), b"A"),
    ];
    let (_, designations, _) = ingest(&records).unwrap().into_parts();
    assert_eq!(designations, vec!["A*01:01", "B*07:02", "C*04:01"]);
}

#[test]
fn ingest_blank_description_fails() {
    let records = vec![record("r1", Some(" \t "), b"A")];
    assert!(matches!(ingest(&records), Err(IngestError::MissingAnnotation)));
    let records = vec![record("r1", Some(""), b"A")];
    assert!(matches!(ingest(&records), Err(IngestError::MissingAnnotation)));
}

#[test]
fn ingest_missing_description_fails() {
    let records = vec![
        record("r1", Some("A*01:01"), b"ACGT"),
        record("r2", None, b"ACGT"),
        record("r3", Some("A*01:01"), b"ACGT"),
    ];
    assert!(matches!(ingest(&records), Err(IngestError::MissingAnnotation)));
}

#[test]
fn ingest_bad_designation_fails() {
    let records = vec![record("r1", Some("A*01,01 bp"), b"ACGT"), record("r2", None, b"A")];
    match ingest(&records) {
        Err(IngestError::Parse(ParseError::InvalidFormat(s))) => assert_eq!(s, "A*01,01"),
        other => panic!("unexpected {:?}", other.is_ok()),
    }
}

#[test]
fn add_record_leaves_collection_on_failure() {
    let parser = AlleleParser::new();
    let mut c = CdsCollection::new();
    assert!(c.add_record(&parser, &record("r1", Some("C*04:01"), b"AC")).is_ok());
    assert!(c.add_record(&parser, &record("r2", None, b"AC")).is_err());
    assert!(c.add_record(&parser, &record("r3", Some("C*04:x"), b"AC")).is_err());
    assert_eq!(c.len(), 1);
    let (seqs, designations, entries) = c.into_parts();
    assert_eq!(seqs.len(), 1);
    assert_eq!(designations, vec!["C*04:01"]);
    assert_eq!(entries.len(), 1);
}
