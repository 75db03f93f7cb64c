//! A field whose header was read: its shape, its encoding, and where its
//! payload lies.

use crate::data_type::DataType;
use crate::encode::{header_text, payload_bytes, push_header, push_payload};
use crate::error::Error;
use crate::field_type::FieldType;
use crate::header::{Header, Source};
use crate::parser::HeaderParser;
use crate::sample::Sample;
use crate::scan::{decided_by_prefix, opened_is_wf, spec_open, spec_status, Status};
use crate::shape::{count_within, product};
use vstd::prelude::*;

verus! {

/// Where the payload of a field lies.
#[derive(Debug, PartialEq, Eq)]
pub enum PayloadSource {
    /// In the stream that held the header, from this position on: the
    /// first byte after the two form feeds.
    Inline(usize),
    /// In the file of this name, from its start.
    External(String),
}

impl View for PayloadSource {
    type V = Source;

    open spec fn view(&self) -> Source {
        match *self {
            PayloadSource::Inline(at) => Source::Inline(at as nat),
            PayloadSource::External(name) => Source::External(name@),
        }
    }
}

/// A field whose header was read and found complete.
#[derive(Debug, PartialEq, Eq)]
pub struct AVSFile {
    /// The number of dimensions.
    pub ndim: usize,
    /// The extent along each axis, first axis first.
    pub sizes: Vec<usize>,
    /// The encoding of the samples.
    pub data_type: DataType,
    /// The kind of field.
    pub field_type: FieldType,
    /// Where the payload lies.
    pub source: PayloadSource,
}

impl View for AVSFile {
    type V = Header;

    open spec fn view(&self) -> Header {
        Header {
            ndim: self.ndim,
            sizes: self.sizes@,
            data_type: self.data_type,
            field_type: self.field_type,
            source: self.source@,
        }
    }
}

/// The bytes of the sample of index `i` in a payload whose samples take
/// `width` bytes each.
pub open spec fn sample_bytes(payload: Seq<u8>, width: nat, i: int) -> Seq<u8> {
    payload.subrange(i * width, (i + 1) * width)
}

impl Header {
    /// The number of samples: the product of the extents.
    pub open spec fn count(self) -> nat {
        product(self.sizes)
    }

    /// The samples of `payload` as single-precision numbers, each as its
    /// 32 bits and converted from the header's encoding. A payload that is
    /// too short for the samples is [`Error::Malformed`]; bytes beyond the
    /// last sample are not looked at.
    pub open spec fn read_to_f32(self, payload: Seq<u8>) -> Result<Seq<u32>, Error> {
        let width = self.data_type.spec_num_bytes() as nat;
        if self.count() * width <= payload.len() {
            Ok(
                Seq::new(
                    self.count(),
                    |i: int| self.data_type.spec_convert(sample_bytes(payload, width, i)),
                ),
            )
        } else {
            Err(Error::Malformed)
        }
    }

    /// The samples of `payload` as values of `T`, bytes taken as they lie.
    /// A `T` whose width is not that of the header's encoding is an
    /// [`Error::DataType`]; a payload that is no whole number of samples,
    /// or is too short for the samples, is [`Error::Malformed`]; whole
    /// samples beyond the last are not looked at.
    pub open spec fn read<T: Sample>(self, payload: Seq<u8>) -> Result<Seq<T>, Error> {
        let width = T::spec_width() as nat;
        if width != self.data_type.spec_num_bytes() {
            Err(Error::DataType)
        } else if payload.len() % width != 0 || self.count() * width > payload.len() {
            Err(Error::Malformed)
        } else {
            Ok(Seq::new(self.count(), |i: int| T::spec_from_raw(sample_bytes(payload, width, i))))
        }
    }
}

impl AVSFile {
    /// Writes a field to `writer`: the header for the extents `dims`, then
    /// the samples `data`, each the 32 bits of a single-precision number,
    /// lowest byte first. The header always announces single-precision
    /// numbers stored lowest byte first. Nothing of this can fail.
    pub fn write(writer: &mut Vec<u8>, dims: &[usize], data: &[u32]) -> (r: Result<(), Error>)
        ensures
            r is Ok,
            final(writer)@ == old(writer)@ + header_text(dims@) + payload_bytes(data@),
    {
        push_header(writer, dims);
        push_payload(writer, data);
        Ok(())
    }

    /// Reads the samples of the field from `payload` as single-precision
    /// numbers, each handed out as its 32 bits. `payload` is what the
    /// field's source holds: for an inline source the bytes of the stream
    /// from the source's position on.
    pub fn read_to_f32(&self, payload: &[u8]) -> (r: Result<Vec<u32>, Error>)
        ensures
            match self@.read_to_f32(payload@) {
                Ok(samples) => r is Ok && r->Ok_0@ == samples,
                Err(e) => r == Err::<Vec<u32>, Error>(e),
            },
    {
        let width = self.data_type.num_bytes();
        let count = match count_within(self.sizes.as_slice(), width, payload.len()) {
            Some(count) => count,
            None => {
                return Err(Error::Malformed);
            },
        };
        let mut out: Vec<u32> = Vec::new();
        let mut i: usize = 0;
        while i < count
            invariant
                i <= count,
                count * width <= payload@.len() <= usize::MAX,
                width == self.data_type.spec_num_bytes(),
                out@.len() == i,
                forall|j: int|
                    0 <= j < i ==> out@[j] == self.data_type.spec_convert(
                        sample_bytes(payload@, width as nat, j),
                    ),
            decreases count - i,
        {
            assert((i + 1) * width <= count * width) by (nonlinear_arith)
                requires
                    i + 1 <= count,
                    width >= 1,
            ;
            assert((i + 1) * width == i * width + width) by (nonlinear_arith);
            let from = i * width;
            let chunk = vstd::slice::slice_subrange(payload, from, from + width);
            out.push(self.data_type.convert_to_f32(chunk));
            i += 1;
        }
        assert(out@ =~= self@.read_to_f32(payload@)->Ok_0);
        Ok(out)
    }

    /// Reads the samples of the field from `payload` as values of `T`,
    /// without conversion: the type has to fit the field's encoding.
    pub fn read<T: Sample>(&self, payload: &[u8]) -> (r: Result<Vec<T>, Error>)
        ensures
            match self@.read::<T>(payload@) {
                Ok(samples) => r is Ok && r->Ok_0@ == samples,
                Err(e) => r == Err::<Vec<T>, Error>(e),
            },
    {
        let width = T::width();
        if width != self.data_type.num_bytes() {
            return Err(Error::DataType);
        }
        if payload.len() % width != 0 {
            return Err(Error::Malformed);
        }
        let count = match count_within(self.sizes.as_slice(), width, payload.len()) {
            Some(count) => count,
            None => {
                return Err(Error::Malformed);
            },
        };
        let mut out: Vec<T> = Vec::new();
        let mut i: usize = 0;
        while i < count
            invariant
                i <= count,
                count * width <= payload@.len() <= usize::MAX,
                width == T::spec_width(),
                width >= 1,
                out@.len() == i,
                forall|j: int|
                    0 <= j < i ==> out@[j] == T::spec_from_raw(
                        sample_bytes(payload@, width as nat, j),
                    ),
            decreases count - i,
        {
            assert((i + 1) * width <= count * width) by (nonlinear_arith)
                requires
                    i + 1 <= count,
                    width >= 1,
            ;
            assert((i + 1) * width == i * width + width) by (nonlinear_arith);
            let from = i * width;
            let chunk = vstd::slice::slice_subrange(payload, from, from + width);
            out.push(T::from_raw(chunk));
            i += 1;
        }
        assert(out@ =~= self@.read::<T>(payload@)->Ok_0);
        Ok(out)
    }

    /// Reads the header at the start of `bytes`, the content of a field's
    /// stream. The payload of a header that names no file starts right
    /// after the header's two form feeds.
    pub fn open(bytes: &[u8]) -> (r: Result<AVSFile, Error>)
        ensures
            match spec_open(bytes@) {
                Ok(header) => r is Ok && r->Ok_0@ == header,
                Err(e) => r == Err::<AVSFile, Error>(e),
            },
            r matches Ok(file) ==> file@.wf(),
    {
        proof {
            opened_is_wf(bytes@);
        }
        let mut parser = HeaderParser::new();
        let mut i: usize = 0;
        assert(bytes@.take(0) =~= Seq::<u8>::empty());
        while i < bytes.len() && matches!(parser.status(), Status::More)
            invariant
                i <= bytes.len(),
                parser.wf(),
                parser.consumed() == bytes@.take(i as int),
            decreases bytes.len() - i,
        {
            parser.push(bytes[i]);
            assert(bytes@.take(i as int).push(bytes@[i as int]) =~= bytes@.take(i + 1));
            i += 1;
        }
        proof {
            if spec_status(bytes@.take(i as int)) == Status::More {
                assert(bytes@.take(i as int) =~= bytes@);
            } else {
                decided_by_prefix(bytes@, i as int);
            }
        }
        parser.finish()
    }
}

} // verus!
