//! The block file: canonical blocks in their serialized form, one after the
//! other, with nothing between them and nothing around them.

use tokio_util::bytes::Buf;
use tokio_util::bytes::BytesMut;
use vstd::prelude::*;
use vstd::std_specs::convert::FromSpecImpl;

verus! {

/// The error of std's I/O, carried through unchanged.
#[verifier::external_type_specification]
#[verifier::external_body]
pub struct ExIoError(std::io::Error);

/// The byte buffer that a stream is read from and written to.
#[verifier::external_type_specification]
#[verifier::external_body]
pub struct ExBytesMut(tokio_util::bytes::BytesMut);

/// The bytes that a buffer holds, front first.
pub uninterp spec fn buffer_bytes(buffer: BytesMut) -> Seq<u8>;

/// `BytesMut::is_empty`: true when the buffer holds no byte.
#[verifier::external_body]
fn buffer_is_empty(buffer: &BytesMut) -> (empty: bool)
    ensures
        empty == (buffer_bytes(*buffer).len() == 0),
{
    buffer.is_empty()
}

/// `BytesMut::len`: the number of bytes that the buffer holds.
#[verifier::external_body]
fn buffer_len(buffer: &BytesMut) -> (len: usize)
    ensures
        len == buffer_bytes(*buffer).len(),
{
    buffer.len()
}

/// `Buf::advance` on a `BytesMut`: drops the first `count` bytes and keeps
/// the rest as they are. It panics when the buffer holds fewer, so that is
/// left out.
#[verifier::external_body]
fn buffer_advance(buffer: &mut BytesMut, count: usize)
    requires
        count <= buffer_bytes(*old(buffer)).len(),
    ensures
        buffer_bytes(*final(buffer)) == buffer_bytes(*old(buffer)).skip(count as int),
{
    buffer.advance(count)
}

/// `BytesMut::extend_from_slice`: appends the bytes of `extend` behind what
/// the buffer holds. No buffer grows beyond `isize::MAX` bytes, so longer
/// results are left out.
#[verifier::external_body]
fn buffer_extend(buffer: &mut BytesMut, extend: &[u8])
    requires
        buffer_bytes(*old(buffer)).len() + extend@.len() <= isize::MAX,
    ensures
        buffer_bytes(*final(buffer)) == buffer_bytes(*old(buffer)) + extend@,
{
    buffer.extend_from_slice(extend)
}

/// An error that can occur when a block file is read or written.
#[derive(Debug)]
pub enum FileClientError {
    /// An error occurred when opening, reading or writing the file.
    Io(std::io::Error),
    /// An error occurred when decoding blocks from the file.
    Rlp(alloy_rlp::Error),
}

impl From<std::io::Error> for FileClientError {
    fn from(error: std::io::Error) -> (converted: FileClientError) {
        FileClientError::Io(error)
    }
}

impl FromSpecImpl<std::io::Error> for FileClientError {
    open spec fn obeys_from_spec() -> bool {
        true
    }

    open spec fn from_spec(error: std::io::Error) -> FileClientError {
        FileClientError::Io(error)
    }
}

impl From<alloy_rlp::Error> for FileClientError {
    fn from(error: alloy_rlp::Error) -> (converted: FileClientError) {
        FileClientError::Rlp(error)
    }
}

impl FromSpecImpl<alloy_rlp::Error> for FileClientError {
    open spec fn obeys_from_spec() -> bool {
        true
    }

    open spec fn from_spec(error: alloy_rlp::Error) -> FileClientError {
        FileClientError::Rlp(error)
    }
}

/// The serialized blocks of a stream, one after the other.
pub open spec fn stream_of(frames: Seq<Seq<u8>>) -> Seq<u8>
    decreases frames.len(),
{
    if frames.len() == 0 {
        Seq::empty()
    } else {
        frames.first() + stream_of(frames.drop_first())
    }
}

/// What one unit of decoding owes. `front` is what the block decoder made of
/// the buffer: the block and the number of bytes left behind it, or its
/// error. On an empty buffer the stream has ended, whatever the decoder
/// said. Else the block is handed on and the bytes that it took are gone, or
/// the error is handed on and the buffer stays as it was.
pub open spec fn is_decode_step<B>(
    before: Seq<u8>,
    front: Result<(B, usize), alloy_rlp::Error>,
    result: Result<Option<B>, FileClientError>,
    after: Seq<u8>,
) -> bool {
    if before.len() == 0 {
        result == Ok::<Option<B>, FileClientError>(None) && after == before
    } else {
        match front {
            Ok((block, remaining)) => {
                &&& result == Ok::<Option<B>, FileClientError>(Some(block))
                &&& after == before.skip(before.len() - remaining)
            },
            Err(error) => {
                &&& result == Err::<Option<B>, FileClientError>(FileClientError::Rlp(error))
                &&& after == before
            },
        }
    }
}

/// The codec of the block file.
#[derive(Clone, Copy, Debug, Default)]
pub struct BlockFileCodec;

impl BlockFileCodec {
    /// Decodes one unit from the front of `src`, given what the block decoder
    /// made of `src`.
    pub fn decode<B>(
        &mut self,
        src: &mut BytesMut,
        front: Result<(B, usize), alloy_rlp::Error>,
    ) -> (result: Result<Option<B>, FileClientError>)
        requires
            front matches Ok((_, remaining)) ==> remaining <= buffer_bytes(*old(src)).len(),
        ensures
            is_decode_step(buffer_bytes(*old(src)), front, result, buffer_bytes(*final(src))),
    {
        if buffer_is_empty(src) {
            return Ok(None);
        }
        match front {
            Ok((block, remaining)) => {
                let consumed: usize = buffer_len(src) - remaining;
                buffer_advance(src, consumed);
                Ok(Some(block))
            },
            Err(error) => Err(FileClientError::from(error)),
        }
    }

    /// Appends one serialized block to `dst`.
    pub fn encode(&mut self, item: &[u8], dst: &mut BytesMut) -> (result: Result<
        (),
        FileClientError,
    >)
        requires
            buffer_bytes(*old(dst)).len() + item@.len() <= isize::MAX,
        ensures
            result is Ok,
            buffer_bytes(*final(dst)) == buffer_bytes(*old(dst)) + item@,
    {
        buffer_extend(dst, item);
        Ok(())
    }
}

/// A stream that begins with one serialized block, cut behind that block,
/// is the stream of the blocks that follow: a decoder that takes one block
/// at a time meets every block of the stream, in order, and then the end.
pub proof fn lemma_stream_advances(frames: Seq<Seq<u8>>)
    requires
        frames.len() > 0,
    ensures
        stream_of(frames).skip(frames.first().len() as int) == stream_of(frames.drop_first()),
        stream_of(frames).len() == frames.first().len() + stream_of(frames.drop_first()).len(),
{
    assert(stream_of(frames).skip(frames.first().len() as int) =~= stream_of(
        frames.drop_first(),
    ));
}

/// Encoding one more block onto a stream gives the stream of the blocks
/// with that block at the end.
pub proof fn lemma_stream_grows(frames: Seq<Seq<u8>>, item: Seq<u8>)
    ensures
        stream_of(frames) + item == stream_of(frames.push(item)),
    decreases frames.len(),
{
    if frames.len() == 0 {
        let one = frames.push(item);
        assert(one.drop_first() =~= frames);
        assert(one.first() == item);
        assert(stream_of(one) == one.first() + stream_of(one.drop_first()));
        assert(stream_of(one) =~= item);
        assert(stream_of(frames) + item =~= item);
    } else {
        lemma_stream_grows(frames.drop_first(), item);
        assert(frames.push(item).drop_first() =~= frames.drop_first().push(item));
        assert(stream_of(frames) + item =~= stream_of(frames.push(item)));
    }
}

/// True when decoding `stream` one unit after the other, with `decoder`
/// as the block decoder, gives the blocks of `blocks` in order and then the
/// end of the stream.
pub open spec fn decodes_to<B>(
    stream: Seq<u8>,
    blocks: Seq<B>,
    decoder: spec_fn(Seq<u8>) -> Result<(B, usize), alloy_rlp::Error>,
) -> bool
    decreases blocks.len(),
{
    if blocks.len() == 0 {
        stream.len() == 0
    } else {
        &&& stream.len() > 0
        &&& decoder(stream) matches Ok((block, remaining))
        &&& block == blocks.first()
        &&& remaining <= stream.len()
        &&& decodes_to(stream.skip(stream.len() - remaining), blocks.drop_first(), decoder)
    }
}

/// One unit of decoding on a stream that decodes to `blocks` hands on the
/// first of them and leaves a stream that decodes to the others; on the
/// stream of no blocks it says that the stream has ended.
pub proof fn lemma_decode_step_takes_first<B>(
    before: Seq<u8>,
    blocks: Seq<B>,
    decoder: spec_fn(Seq<u8>) -> Result<(B, usize), alloy_rlp::Error>,
    result: Result<Option<B>, FileClientError>,
    after: Seq<u8>,
)
    requires
        decodes_to(before, blocks, decoder),
        is_decode_step(before, decoder(before), result, after),
    ensures
        blocks.len() == 0 ==> result == Ok::<Option<B>, FileClientError>(None) && after == before,
        blocks.len() > 0 ==> result == Ok::<Option<B>, FileClientError>(Some(blocks.first()))
            && decodes_to(after, blocks.drop_first(), decoder),
{
}

/// True when `decoder` undoes `serialize` at the front of any buffer: from
/// the bytes of a block, whatever follows them, it gives that block back and
/// leaves what follows; and no block is serialized to nothing.
pub open spec fn is_inverse_at_front<B>(
    serialize: spec_fn(B) -> Seq<u8>,
    decoder: spec_fn(Seq<u8>) -> Result<(B, usize), alloy_rlp::Error>,
) -> bool {
    forall|block: B, rest: Seq<u8>|
        rest.len() <= usize::MAX ==> serialize(block).len() > 0 && #[trigger] decoder(
            serialize(block) + rest,
        ) == Ok::<(B, usize), alloy_rlp::Error>((block, rest.len() as usize))
}

/// The stream of a sequence of blocks decodes to those blocks, in order and
/// with nothing left over, wherever the block decoder undoes at the front of
/// a buffer what the serializer did. That the block format's own decoder
/// does so is its own matter and is not shown here.
pub proof fn lemma_stream_round_trip<B>(
    blocks: Seq<B>,
    serialize: spec_fn(B) -> Seq<u8>,
    decoder: spec_fn(Seq<u8>) -> Result<(B, usize), alloy_rlp::Error>,
)
    requires
        is_inverse_at_front(serialize, decoder),
        stream_of(blocks.map_values(serialize)).len() <= usize::MAX,
    ensures
        decodes_to(stream_of(blocks.map_values(serialize)), blocks, decoder),
    decreases blocks.len(),
{
    let frames = blocks.map_values(serialize);
    if blocks.len() > 0 {
        let rest = stream_of(frames.drop_first());
        lemma_stream_advances(frames);
        assert(frames.drop_first() =~= blocks.drop_first().map_values(serialize));
        assert(frames.first() == serialize(blocks.first()));
        assert(stream_of(frames) == serialize(blocks.first()) + rest);
        lemma_stream_round_trip(blocks.drop_first(), serialize, decoder);
        assert(stream_of(frames).skip(stream_of(frames).len() - rest.len()) == rest);
    }
}

} // verus!
