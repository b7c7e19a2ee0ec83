use vstd::prelude::*;

verus! {

#[verifier::external_type_specification]
#[verifier::external_body]
pub struct ExDecoder(encoding_rs::Decoder);

/// The text that a streaming UTF-8 decoder has emitted once it has been fed `fed`
/// (the input not yet declared finished).
pub uninterp spec fn utf8_stream_text(fed: Seq<u8>) -> Seq<char>;

/// The largest chunk fed at once.
pub const MAX_CHUNK: usize = 0x1000_0000;

/// Relies on `encoding_rs::UTF_8.new_decoder()`: a fresh streaming UTF-8 decoder.
#[verifier::external_body]
fn new_utf8_decoder() -> encoding_rs::Decoder {
    encoding_rs::UTF_8.new_decoder()
}

/// Relies on `encoding_rs::Decoder::decode_to_string` with `last == false`, given room
/// for `max_utf8_buffer_length` bytes: it emits what the bytes fed so far decode to,
/// holds back an incomplete trailing sequence, and never takes back what it emitted.
#[verifier::external_body]
fn decode_chunk(stream: &mut TextStream, bytes: &[u8]) -> (r: String)
    requires
        bytes@.len() <= MAX_CHUNK,
    ensures
        final(stream).fed() == old(stream).fed(),
        utf8_stream_text(old(stream).fed() + bytes@) == utf8_stream_text(old(stream).fed()) + r@,
{
    let room = stream.decoder.max_utf8_buffer_length(bytes.len()).unwrap_or(0);
    let mut out = String::with_capacity(room);
    let _ = stream.decoder.decode_to_string(bytes, &mut out, false);
    out
}

/// Turns the bytes of successive tokens into text, holding back a character whose
/// bytes are split until its last byte arrives.
pub struct TextStream {
    decoder: encoding_rs::Decoder,
    /// Every byte fed so far.
    fed: Ghost<Seq<u8>>,
}

impl TextStream {
    /// Every byte fed so far.
    pub closed spec fn fed(&self) -> Seq<u8> {
        self.fed@
    }

    pub fn new() -> (s: TextStream)
        ensures
            s.fed() == Seq::<u8>::empty(),
    {
        TextStream { decoder: new_utf8_decoder(), fed: Ghost(Seq::empty()) }
    }

    /// Feeds the bytes of one token; returns the text that they complete.
    pub fn feed(&mut self, bytes: &Vec<u8>) -> (r: String)
        requires
            bytes@.len() <= MAX_CHUNK,
        ensures
            final(self).fed() == old(self).fed() + bytes@,
            utf8_stream_text(final(self).fed()) == utf8_stream_text(old(self).fed()) + r@,
    {
        let r = decode_chunk(self, bytes.as_slice());
        self.fed = Ghost(self.fed@ + bytes@);
        r
    }
}

} // verus!
