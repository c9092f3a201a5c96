use vstd::prelude::*;

verus! {

/// Header layouts of transcriptome FASTA files.
pub enum FastaFormat {
    Unknown,
    Gencode,
    Ensembl,
    Gffread,
}

} // verus!
