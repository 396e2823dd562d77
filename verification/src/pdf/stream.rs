//! PDF streams: data with a dictionary, Flate compression and the PNG
//! row predictors applied before compression.

use vstd::prelude::*;
use crate::pdf::object::{PdfDictionary, PdfObject};

verus! {

/// The bytes that miniz_oxide's zlib compressor produces for `data` at
/// compression `level`.
pub uninterp spec fn zlib_compressed(data: Seq<u8>, level: u8) -> Seq<u8>;

/// Compresses `data` into a zlib stream (`miniz_oxide::deflate::compress_to_vec_zlib`).
/// The contract names the output: the same input and level always give the
/// same bytes. What those bytes are is left to miniz_oxide.
#[verifier::external_body]
pub(crate) fn compress_zlib(data: &[u8], level: u8) -> (r: Vec<u8>)
    ensures
        r@ == zlib_compressed(data@, level),
{
    miniz_oxide::deflate::compress_to_vec_zlib(data, level)
}

/// PDF stream object
pub struct PdfStream {
    pub data: Vec<u8>,
    pub dictionary: PdfDictionary,
}

/// The `/Length` entry written for `n` bytes of data.
pub open spec fn length_entry(n: nat) -> PdfObject {
    PdfObject::Integer(n as i32)
}

impl PdfStream {
    /// A stream whose dictionary holds just its `/Length`.
    pub fn new(data: Vec<u8>) -> (r: Self)
        ensures
            r.data@ == data@,
            r.dictionary.value_of("Length"@) == Some(length_entry(data@.len())),
            r.dictionary.entries().len() == 1,
    {
        let mut dict = PdfDictionary::new();
        #[verifier::truncate]
        let n: i32 = data.len() as i32;
        dict.insert("Length", PdfObject::Integer(n));
        PdfStream { data, dictionary: dict }
    }

    /// A stream with the given dictionary, taken as it is.
    pub fn with_dictionary(data: Vec<u8>, dictionary: PdfDictionary) -> (r: Self)
        ensures
            r.data@ == data@,
            r.dictionary == dictionary,
    {
        PdfStream { data, dictionary }
    }

    /// The length of the stream data.
    pub fn len(&self) -> (r: usize)
        ensures
            r == self.data@.len(),
    {
        self.data.len()
    }

    pub fn is_empty(&self) -> (r: bool)
        ensures
            r == (self.data@.len() == 0),
    {
        self.data.len() == 0
    }

    /// Sets `/Length` to the current data length; other entries stay.
    pub fn update_length(&mut self)
        ensures
            final(self).data@ == old(self).data@,
            final(self).dictionary.value_of("Length"@) == Some(length_entry(old(self).data@.len())),
            forall|k: Seq<char>| k != "Length"@ ==> final(self).dictionary.value_of(k) == old(self).dictionary.value_of(k),
    {
        #[verifier::truncate]
        let n: i32 = self.data.len() as i32;
        self.dictionary.insert("Length", PdfObject::Integer(n));
    }
}

/// A stream encoding: what it makes of the data, and the name of the PDF
/// filter that undoes it.
pub trait StreamEncode {
    /// The encoded form of `data`.
    spec fn encoding(&self, data: Seq<u8>) -> Seq<u8>;

    /// The PDF filter name.
    spec fn filter(&self) -> Seq<char>;

    fn encode(&self, data: &[u8]) -> (r: Vec<u8>)
        ensures
            r@ == self.encoding(data@);

    fn filter_name(&self) -> (r: &'static str)
        ensures
            r@ == self.filter();
}

/// Flate (zlib) compression encoder
pub struct FlateEncode {
    pub level: u8,
}

impl FlateEncode {
    /// The encoder at the default level, 6.
    pub fn new() -> (r: Self)
        ensures
            r.level == 6,
    {
        FlateEncode { level: 6 }
    }

    pub fn with_level(level: u8) -> (r: Self)
        ensures
            r.level == level,
    {
        FlateEncode { level }
    }
}

impl Default for FlateEncode {
    fn default() -> (r: Self)
        ensures
            r.level == 6,
    {
        FlateEncode::new()
    }
}

impl StreamEncode for FlateEncode {
    open spec fn encoding(&self, data: Seq<u8>) -> Seq<u8> {
        zlib_compressed(data, self.level)
    }

    open spec fn filter(&self) -> Seq<char> {
        "FlateDecode"@
    }

    fn encode(&self, data: &[u8]) -> (r: Vec<u8>) {
        compress_zlib(data, self.level)
    }

    fn filter_name(&self) -> (r: &'static str) {
        "FlateDecode"
    }
}

/// Encodes `data` with `encoder`; gives the encoded bytes and the filter name.
pub fn encode_stream<E: StreamEncode>(encoder: &E, data: &[u8]) -> (r: (Vec<u8>, String))
    ensures
        r.0@ == encoder.encoding(data@),
        r.1@ == encoder.filter(),
{
    let encoded = encoder.encode(data);
    let filter_name = String::from_str(encoder.filter_name());
    (encoded, filter_name)
}

/// Predictor filter for image data
#[derive(Debug, Clone, Copy, PartialEq, Eq, Structural)]
pub enum Predictor {
    NoPrediction,
    Tiff,
    PngNone,
    PngSub,
    PngUp,
    PngAverage,
    PngPaeth,
    PngOptimum,
}

/// PNG "None" filtering of the first `k` whole rows of `rs` bytes: each row
/// preceded by the filter byte 0.
pub open spec fn png_none_rows(data: Seq<u8>, rs: nat, k: nat) -> Seq<u8>
    decreases k,
{
    if k == 0 {
        Seq::empty()
    } else {
        png_none_rows(data, rs, (k - 1) as nat) + seq![0u8]
            + data.subrange(((k - 1) * rs) as int, (k * rs) as int)
    }
}

/// Row `i` under PNG "Up" filtering: each byte minus the byte above it
/// (0 above the first row), wrapping; the last row may be short.
pub open spec fn png_up_row(data: Seq<u8>, rs: nat, i: nat) -> Seq<u8> {
    let start = i * rs;
    let n = if data.len() - start < rs { data.len() - start } else { rs as int };
    Seq::new(n as nat, |j: int| {
        let above: u8 = if i == 0 { 0u8 } else { data[(i - 1) * rs + j] };
        ((data[start + j] - above) % 256) as u8
    })
}

/// PNG "Up" filtering of the first `k` rows, each preceded by the filter
/// byte 2.
pub open spec fn png_up_rows(data: Seq<u8>, rs: nat, k: nat) -> Seq<u8>
    decreases k,
{
    if k == 0 {
        Seq::empty()
    } else {
        png_up_rows(data, rs, (k - 1) as nat) + seq![2u8] + png_up_row(data, rs, (k - 1) as nat)
    }
}

/// What `apply` gives for `data` with rows of `rs` bytes.
pub open spec fn predicted(p: Predictor, data: Seq<u8>, rs: nat) -> Seq<u8> {
    match p {
        Predictor::PngNone => png_none_rows(data, rs, data.len() / rs),
        Predictor::PngUp => png_up_rows(data, rs, ((data.len() + rs - 1) as nat / rs) as nat),
        _ => data,
    }
}

proof fn lemma_row_bounds(i: nat, rs: nat, len: nat)
    requires
        rs > 0,
        i < ((len + rs - 1) as nat) / rs,
    ensures
        i * rs < len,
        (i + 1) * rs == i * rs + rs,
{
    assert(i * rs < len) by (nonlinear_arith)
        requires rs > 0, i < ((len + rs - 1) as nat) / rs;
    assert((i + 1) * rs == i * rs + rs) by (nonlinear_arith);
}

impl Predictor {
    /// Applies the predictor to image rows of `width * components` bytes.
    /// PNG None drops a trailing partial row; PNG Up keeps it short. The
    /// predictors not implemented give the data back unchanged.
    pub fn apply(&self, data: &[u8], width: usize, components: usize) -> (r: Vec<u8>)
        requires
            *self is PngNone || *self is PngUp ==> 0 < width * components <= usize::MAX,
            *self is PngUp ==> data@.len() + width * components <= usize::MAX,
        ensures
            r@ == predicted(*self, data@, (width * components) as nat),
    {
        let n = data.len();
        match self {
            Predictor::PngNone => {
                let row_size = width * components;
                let rows = data.len() / row_size;
                let ghost rs = row_size as nat;
                let mut result: Vec<u8> = Vec::new();
                let mut i: usize = 0;
                while i < rows
                    invariant
                        rs == row_size as nat,
                        row_size > 0,
                        n == data@.len(),
                        rows == data@.len() / (row_size as nat),
                        i <= rows,
                        result@ == png_none_rows(data@, rs, i as nat),
                    decreases rows - i,
                {
                    proof {
                        assert(i * row_size + row_size <= data@.len()) by (nonlinear_arith)
                            requires i < rows, rows == data@.len() / (row_size as nat), row_size > 0;
                        assert((i + 1) * rs == i * rs + rs) by (nonlinear_arith);
                    }
                    let start = i * row_size;
                    result.push(0u8);
                    let ghost before = result@;
                    let mut j: usize = 0;
                    while j < row_size
                        invariant
                            start == i * rs,
                            rs == row_size as nat,
                            start + row_size <= data@.len(),
                            data@.len() <= usize::MAX,
                            j <= row_size,
                            result@ == before + data@.subrange(start as int, start + j),
                        decreases row_size - j,
                    {
                        result.push(data[start + j]);
                        assert(data@.subrange(start as int, start + j + 1)
                            =~= data@.subrange(start as int, start + j).push(data@[start + j]));
                        j = j + 1;
                    }
                    i = i + 1;
                }
                result
            },
            Predictor::PngUp => {
                let row_size = width * components;
                let rows = (n + row_size - 1) / row_size;
                let ghost rs = row_size as nat;
                let mut result: Vec<u8> = Vec::new();
                let mut i: usize = 0;
                while i < rows
                    invariant
                        rs == row_size as nat,
                        row_size > 0,
                        rows == ((data@.len() + row_size - 1) as nat) / (row_size as nat),
                        data@.len() + row_size - 1 <= usize::MAX,
                        i <= rows,
                        result@ == png_up_rows(data@, rs, i as nat),
                    decreases rows - i,
                {
                    proof {
                        lemma_row_bounds(i as nat, rs, data@.len());
                        assert(i * row_size < data@.len());
                        if i > 0 {
                            assert((i - 1) * rs + rs == i * rs) by (nonlinear_arith)
                                requires i > 0;
                        }
                    }
                    let start = i * row_size;
                    let end = if start + row_size < data.len() { start + row_size } else { data.len() };
                    result.push(2u8);
                    let ghost before = result@;
                    let ghost row = png_up_row(data@, rs, i as nat);
                    let mut j: usize = 0;
                    while j < end - start
                        invariant
                            start == i * rs,
                            rs == row_size as nat,
                            start < data@.len(),
                            end == if start + row_size < data@.len() { start + row_size } else { data@.len() as int },
                            i > 0 ==> start >= row_size && (i - 1) * rs == start - row_size,
                            row == png_up_row(data@, rs, i as nat),
                            row.len() == end - start,
                            j <= end - start,
                            result@ == before + row.take(j as int),
                        decreases end - start - j,
                    {
                        let above: u8 = if i == 0 { 0u8 } else { data[start - row_size + j] };
                        let b: u8 = data[start + j].wrapping_sub(above);
                        result.push(b);
                        assert(row.take(j + 1) =~= row.take(j as int).push(row[j as int]));
                        j = j + 1;
                    }
                    assert(row.take(row.len() as int) =~= row);
                    i = i + 1;
                }
                result
            },
            _ => {
                let mut result: Vec<u8> = Vec::new();
                let mut i: usize = 0;
                while i < data.len()
                    invariant
                        i <= data@.len(),
                        result@ == data@.take(i as int),
                    decreases data@.len() - i,
                {
                    result.push(data[i]);
                    assert(data@.take(i + 1) =~= data@.take(i as int).push(data@[i as int]));
                    i = i + 1;
                }
                assert(data@.take(data@.len() as int) =~= data@);
                result
            },
        }
    }
}

} // verus!
