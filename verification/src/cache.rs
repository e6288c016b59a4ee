//! The raw pixel cache: a 40-byte header followed by XRGB pixels.
//!
//! Header layout: 8 magic bytes `WALLMAN1`, then width, height, stride and
//! blur as 32-bit words in the byte order of the hardware, then the scaling
//! mode in a zero-padded 16-byte field holding at most 15 of its bytes.

use vstd::prelude::*;
use vstd::string::StringSliceAdditionalSpecFns;
use crate::encoding::{native_u32_bytes, lemma_native_u32_bytes, u32_to_native_bytes, u32_from_native_bytes};

verus! {

/// Number of bytes of an encoded header.
pub const HEADER_LEN: usize = 40;

/// Largest width or height a cached buffer may declare.
pub const MAX_CACHED_DIMENSION: u32 = 16384;

/// The magic bytes `WALLMAN1`.
pub open spec fn magic_seq() -> Seq<u8> {
    seq![0x57u8, 0x41u8, 0x4cu8, 0x4cu8, 0x4du8, 0x41u8, 0x4eu8, 0x31u8]
}

/// The 16-byte mode field for a mode whose UTF-8 bytes are `mode`: its first
/// 15 bytes at most, padded with zeros.
pub open spec fn mode_field(mode: Seq<u8>) -> Seq<u8> {
    Seq::new(16, |i: int| if i < mode.len() && i < 15 { mode[i] } else { 0u8 })
}

/// What a header holds.
pub struct HeaderView {
    pub magic: Seq<u8>,
    pub width: u32,
    pub height: u32,
    pub stride: u32,
    pub blur: u32,
    pub mode: Seq<u8>,
}

/// The header that describes a buffer of the given size, blur and mode.
pub open spec fn header_for(width: u32, height: u32, blur: u32, mode: Seq<u8>) -> HeaderView {
    HeaderView {
        magic: magic_seq(),
        width,
        height,
        stride: (width * 4) as u32,
        blur,
        mode: mode_field(mode),
    }
}

/// The 40 bytes of an encoded header.
pub open spec fn header_bytes(h: HeaderView) -> Seq<u8> {
    h.magic + native_u32_bytes(h.width) + native_u32_bytes(h.height) + native_u32_bytes(h.stride)
        + native_u32_bytes(h.blur) + h.mode
}

/// The word stored at `b[at..at + 4]`.
pub open spec fn word_at(b: Seq<u8>, at: int) -> u32 {
    choose|x: u32| native_u32_bytes(x) == b.subrange(at, at + 4)
}

/// Whether a header may be accepted: the right magic, a stride of four bytes
/// per pixel, and both dimensions at most 16384.
pub open spec fn header_acceptable(h: HeaderView) -> bool {
    &&& h.magic == magic_seq()
    &&& h.stride as int == h.width as int * 4
    &&& h.width <= MAX_CACHED_DIMENSION
    &&& h.height <= MAX_CACHED_DIMENSION
}

/// The header held by the first 40 bytes of `b`, if there are 40 bytes and
/// the header is acceptable.
pub open spec fn parse_header(b: Seq<u8>) -> Option<HeaderView> {
    if b.len() < HEADER_LEN {
        None
    } else {
        let h = HeaderView {
            magic: b.subrange(0, 8),
            width: word_at(b, 8),
            height: word_at(b, 12),
            stride: word_at(b, 16),
            blur: word_at(b, 20),
            mode: b.subrange(24, 40),
        };
        if header_acceptable(h) {
            Some(h)
        } else {
            None
        }
    }
}

/// Whether a header describes a buffer of the expected size, blur and mode.
pub open spec fn header_matches(h: HeaderView, width: u32, height: u32, blur: u32, mode: Seq<u8>) -> bool {
    &&& h.magic == magic_seq()
    &&& h.width == width
    &&& h.height == height
    &&& h.blur == blur
    &&& h.mode == mode_field(mode)
}

/// The bytes of a cache file that holds `pixels` for the given size, blur
/// and mode.
pub open spec fn raw_cache_bytes(width: u32, height: u32, blur: u32, mode: Seq<u8>, pixels: Seq<u8>) -> Seq<u8> {
    header_bytes(header_for(width, height, blur, mode)) + pixels
}

/// What loading a cache file with contents `data` gives for the expected
/// size, blur and mode: its pixels and dimensions, when the header is
/// acceptable, matches, and the pixels fill exactly `stride * height` bytes.
pub open spec fn loaded_raw_cache(
    data: Seq<u8>,
    width: u32,
    height: u32,
    blur: u32,
    mode: Seq<u8>,
) -> Option<(Seq<u8>, u32, u32)> {
    match parse_header(data) {
        None => None,
        Some(h) => if header_matches(h, width, height, blur, mode) && data.len() - HEADER_LEN
            == h.stride as int * h.height as int {
            Some((data.subrange(HEADER_LEN as int, data.len() as int), h.width, h.height))
        } else {
            None
        },
    }
}

/// The name of the cache file of one monitor and kind: `{monitor}.{kind}.raw`.
pub open spec fn raw_file_name_spec(monitor: Seq<char>, kind: Seq<char>) -> Seq<char> {
    monitor + seq!['.'] + kind + seq!['.', 'r', 'a', 'w']
}

/// The header of a raw pixel cache file.
#[derive(Debug, Clone, Copy)]
pub struct RawHeader {
    magic: [u8; 8],
    width: u32,
    height: u32,
    stride: u32,
    blur: u32,
    mode: [u8; 16],
}

impl View for RawHeader {
    type V = HeaderView;

    closed spec fn view(&self) -> HeaderView {
        HeaderView {
            magic: self.magic@,
            width: self.width,
            height: self.height,
            stride: self.stride,
            blur: self.blur,
            mode: self.mode@,
        }
    }
}

fn magic_bytes() -> (m: [u8; 8])
    ensures
        m@ == magic_seq(),
{
    let m: [u8; 8] = [0x57u8, 0x41u8, 0x4cu8, 0x4cu8, 0x4du8, 0x41u8, 0x4eu8, 0x31u8];
    assert(m@ =~= magic_seq());
    m
}

/// The zero-padded 16-byte mode field of `mode`.
fn mode_field_bytes(mode: &str) -> (f: [u8; 16])
    ensures
        f@ == mode_field(mode.spec_bytes()),
{
    let src = mode.as_bytes();
    let len: usize = if src.len() < 15 {
        src.len()
    } else {
        15
    };
    let mut out: [u8; 16] = [0u8; 16];
    let mut i: usize = 0;
    while i < len
        invariant
            len <= 15,
            len <= src@.len(),
            len == src@.len() || len == 15,
            i <= len,
            out@.len() == 16,
            forall|j: int| 0 <= j < i ==> out@[j] == src@[j],
            forall|j: int| i <= j < 16 ==> out@[j] == 0u8,
        decreases len - i,
    {
        out[i] = src[i];
        i = i + 1;
    }
    assert(out@ =~= mode_field(src@));
    out
}

/// Whether two byte sequences are equal.
fn bytes_equal(a: &[u8], b: &[u8]) -> (r: bool)
    ensures
        r == (a@ == b@),
{
    if a.len() != b.len() {
        return false;
    }
    let mut i: usize = 0;
    while i < a.len()
        invariant
            a@.len() == b@.len(),
            i <= a@.len(),
            forall|j: int| 0 <= j < i ==> a@[j] == b@[j],
        decreases a@.len() - i,
    {
        if a[i] != b[i] {
            return false;
        }
        i = i + 1;
    }
    assert(a@ =~= b@);
    true
}

/// Copies `src` into `dst` from index `at` on.
fn copy_into(dst: &mut [u8; 40], at: usize, src: &[u8])
    requires
        at + src@.len() <= 40,
    ensures
        final(dst)@ == old(dst)@.subrange(0, at as int) + src@ + old(dst)@.subrange(
            at + src@.len(),
            40,
        ),
{
    let ghost before = dst@;
    let mut i: usize = 0;
    while i < src.len()
        invariant
            at + src@.len() <= 40,
            i <= src@.len(),
            dst@.len() == 40,
            forall|j: int| 0 <= j < at ==> dst@[j] == before[j],
            forall|j: int| 0 <= j < i ==> dst@[at + j] == src@[j],
            forall|j: int| at + i <= j < 40 ==> dst@[j] == before[j],
        decreases src@.len() - i,
    {
        dst[at + i] = src[i];
        i = i + 1;
    }
    assert(dst@ =~= before.subrange(0, at as int) + src@ + before.subrange(at + src@.len(), 40));
}

/// The word stored at `bytes[at..at + 4]`.
fn read_word(bytes: &[u8], at: usize) -> (x: u32)
    requires
        at + 4 <= bytes@.len(),
    ensures
        x == word_at(bytes@, at as int),
        native_u32_bytes(x) == bytes@.subrange(at as int, at + 4),
{
    let b: [u8; 4] = [bytes[at], bytes[at + 1], bytes[at + 2], bytes[at + 3]];
    let x = u32_from_native_bytes(b);
    assert(b@ =~= bytes@.subrange(at as int, at + 4));
    proof {
        let y = word_at(bytes@, at as int);
        assert(native_u32_bytes(y) == bytes@.subrange(at as int, at + 4));
        lemma_native_u32_bytes(x, y);
    }
    x
}

impl RawHeader {
    /// The header for a buffer of `width` by `height` pixels, made with the
    /// given blur and mode.
    pub fn new(width: u32, height: u32, blur: u32, mode: &str) -> (h: Self)
        requires
            width as int * 4 <= u32::MAX,
        ensures
            h@ == header_for(width, height, blur, mode.spec_bytes()),
    {
        RawHeader {
            magic: magic_bytes(),
            width,
            height,
            stride: width * 4,
            blur,
            mode: mode_field_bytes(mode),
        }
    }

    /// Whether this header describes a buffer of the expected size, blur and
    /// mode (the stride is not compared).
    pub fn matches(&self, width: u32, height: u32, blur: u32, mode: &str) -> (r: bool)
        ensures
            r == header_matches(self@, width, height, blur, mode.spec_bytes()),
    {
        let mode_bytes = mode_field_bytes(mode);
        let magic = magic_bytes();
        bytes_equal(&self.magic, &magic) && self.width == width && self.height == height
            && self.blur == blur && bytes_equal(&self.mode, &mode_bytes)
    }

    /// The view of a header holds 8 magic bytes and a 16-byte mode field.
    pub proof fn lemma_view_lengths(&self)
        ensures
            self@.magic.len() == 8,
            self@.mode.len() == 16,
    {
    }

    /// The 40 bytes of this header: the magic, then width, height, stride
    /// and blur in the byte order of the hardware, then the mode field.
    pub fn to_bytes(&self) -> (bytes: [u8; 40])
        ensures
            bytes@ == header_bytes(self@),
            bytes@.len() == HEADER_LEN,
            bytes@.subrange(0, 8) == self@.magic,
            bytes@.subrange(8, 12) == native_u32_bytes(self@.width),
            bytes@.subrange(12, 16) == native_u32_bytes(self@.height),
            bytes@.subrange(16, 20) == native_u32_bytes(self@.stride),
            bytes@.subrange(20, 24) == native_u32_bytes(self@.blur),
            bytes@.subrange(24, 40) == self@.mode,
    {
        let mut bytes: [u8; 40] = [0u8; 40];
        copy_into(&mut bytes, 0, &self.magic);
        let w = u32_to_native_bytes(self.width);
        copy_into(&mut bytes, 8, &w);
        let h = u32_to_native_bytes(self.height);
        copy_into(&mut bytes, 12, &h);
        let s = u32_to_native_bytes(self.stride);
        copy_into(&mut bytes, 16, &s);
        let b = u32_to_native_bytes(self.blur);
        copy_into(&mut bytes, 20, &b);
        copy_into(&mut bytes, 24, &self.mode);
        assert(bytes@ =~= header_bytes(self@));
        proof {
            lemma_native_u32_bytes(self.width, self.width);
            lemma_native_u32_bytes(self.height, self.height);
            lemma_native_u32_bytes(self.stride, self.stride);
            lemma_native_u32_bytes(self.blur, self.blur);
            assert(bytes@.subrange(0, 8) =~= self@.magic);
            assert(bytes@.subrange(8, 12) =~= native_u32_bytes(self@.width));
            assert(bytes@.subrange(12, 16) =~= native_u32_bytes(self@.height));
            assert(bytes@.subrange(16, 20) =~= native_u32_bytes(self@.stride));
            assert(bytes@.subrange(20, 24) =~= native_u32_bytes(self@.blur));
            assert(bytes@.subrange(24, 40) =~= self@.mode);
        }
        bytes
    }

    /// The header held by the first 40 bytes of `bytes`; `None` when there
    /// are fewer, the magic is wrong, the stride is not four bytes per pixel
    /// or a dimension exceeds 16384.
    pub fn from_bytes(bytes: &[u8]) -> (r: Option<Self>)
        ensures
            match r {
                Some(h) => parse_header(bytes@) == Some(h@),
                None => parse_header(bytes@) is None,
            },
    {
        if bytes.len() < HEADER_LEN {
            return None;
        }
        let mut magic: [u8; 8] = [0u8; 8];
        let mut i: usize = 0;
        while i < 8
            invariant
                bytes@.len() >= 40,
                i <= 8,
                forall|j: int| 0 <= j < i ==> magic@[j] == bytes@[j],
            decreases 8 - i,
        {
            magic[i] = bytes[i];
            i = i + 1;
        }
        assert(magic@ =~= bytes@.subrange(0, 8));
        let expected = magic_bytes();
        if !bytes_equal(&magic, &expected) {
            return None;
        }
        let width = read_word(bytes, 8);
        let height = read_word(bytes, 12);
        let stride = read_word(bytes, 16);
        let blur = read_word(bytes, 20);
        let mut mode: [u8; 16] = [0u8; 16];
        let mut k: usize = 0;
        while k < 16
            invariant
                bytes@.len() >= 40,
                k <= 16,
                forall|j: int| 0 <= j < k ==> mode@[j] == bytes@[24 + j],
            decreases 16 - k,
        {
            mode[k] = bytes[24 + k];
            k = k + 1;
        }
        assert(mode@ =~= bytes@.subrange(24, 40));
        match width.checked_mul(4) {
            None => {
                return None;
            },
            Some(s) => {
                if stride != s {
                    return None;
                }
            },
        }
        if width > MAX_CACHED_DIMENSION || height > MAX_CACHED_DIMENSION {
            return None;
        }
        Some(RawHeader { magic, width, height, stride, blur, mode })
    }
}

/// The contents of a cache file holding `pixels` for a buffer of the given
/// size, blur and mode: the encoded header, then the pixels.
pub fn encode_raw_cache(width: u32, height: u32, blur: u32, mode: &str, pixels: &[u8]) -> (data: Vec<u8>)
    requires
        width as int * 4 <= u32::MAX,
    ensures
        data@ == raw_cache_bytes(width, height, blur, mode.spec_bytes(), pixels@),
{
    let header = RawHeader::new(width, height, blur, mode);
    let header_bytes = header.to_bytes();
    let mut data: Vec<u8> = Vec::new();
    let mut i: usize = 0;
    while i < HEADER_LEN
        invariant
            i <= 40,
            header_bytes@.len() == 40,
            data@ == header_bytes@.subrange(0, i as int),
        decreases 40 - i,
    {
        data.push(header_bytes[i]);
        i = i + 1;
        assert(data@ =~= header_bytes@.subrange(0, i as int));
    }
    let mut j: usize = 0;
    while j < pixels.len()
        invariant
            j <= pixels@.len(),
            header_bytes@.len() == 40,
            data@ == header_bytes@ + pixels@.subrange(0, j as int),
        decreases pixels@.len() - j,
    {
        data.push(pixels[j]);
        j = j + 1;
        assert(data@ =~= header_bytes@ + pixels@.subrange(0, j as int));
    }
    assert(pixels@.subrange(0, pixels@.len() as int) =~= pixels@);
    data
}

/// The pixels and dimensions held by a cache file with contents `data`,
/// when its header is acceptable, describes the expected size, blur and
/// mode, and the pixels fill exactly `stride * height` bytes.
pub fn decode_raw_cache(
    data: &[u8],
    expected_w: u32,
    expected_h: u32,
    expected_blur: u32,
    expected_mode: &str,
) -> (r: Option<(Vec<u8>, u32, u32)>)
    ensures
        match r {
            Some((pixels, w, h)) => loaded_raw_cache(
                data@,
                expected_w,
                expected_h,
                expected_blur,
                expected_mode.spec_bytes(),
            ) == Some((pixels@, w, h)),
            None => loaded_raw_cache(
                data@,
                expected_w,
                expected_h,
                expected_blur,
                expected_mode.spec_bytes(),
            ) is None,
        },
{
    let header = match RawHeader::from_bytes(data) {
        Some(h) => h,
        None => {
            return None;
        },
    };
    if !header.matches(expected_w, expected_h, expected_blur, expected_mode) {
        return None;
    }
    assert(header.stride as int * header.height as int <= 65536 * 16384) by (nonlinear_arith)
        requires
            header.stride <= 65536,
            header.height <= 16384,
    ;
    let expected_len = header.stride * header.height;
    if data.len() - HEADER_LEN != expected_len as usize {
        return None;
    }
    let mut pixels: Vec<u8> = Vec::with_capacity(expected_len as usize);
    let mut i: usize = HEADER_LEN;
    while i < data.len()
        invariant
            40 <= i <= data@.len(),
            pixels@ == data@.subrange(40, i as int),
        decreases data@.len() - i,
    {
        pixels.push(data[i]);
        i = i + 1;
        assert(pixels@ =~= data@.subrange(40, i as int));
    }
    Some((pixels, header.width, header.height))
}

/// The name of the cache file of one monitor and kind: `{monitor}.{kind}.raw`.
pub fn raw_file_name(monitor: &str, kind: &str) -> (name: String)
    ensures
        name@ == raw_file_name_spec(monitor@, kind@),
{
    let mut name = String::from_str(monitor);
    name.append(".");
    name.append(kind);
    name.append(".raw");
    proof {
        reveal_strlit(".");
        reveal_strlit(".raw");
    }
    assert(name@ =~= raw_file_name_spec(monitor@, kind@));
    name
}

/// The path `std::path::Path::join` gives for `name` inside `dir`.
pub uninterp spec fn joined_path(dir: Seq<char>, name: Seq<char>) -> Seq<char>;

/// `Path::join`: the path of `name` inside the directory `dir`, as its
/// documentation and that of `PathBuf::push` give it on Unix, where this
/// Wayland program runs: an absolute `name` (one starting with `/`)
/// replaces `dir`, and a relative one is added to a non-empty `dir` after
/// one `/` unless `dir` already ends with one. The result is named; the
/// first and last of these cases are stated. Both parts are UTF-8, so the
/// joined path is too.
#[verifier::external_body]
fn join_path(dir: &str, name: &str) -> (path: String)
    ensures
        path@ == joined_path(dir@, name@),
        name@.len() > 0 && name@[0] == '/' ==> path@ == name@,
        dir@.len() > 0 && dir@.last() != '/' && !(name@.len() > 0 && name@[0] == '/') ==> path@ == dir@
            + seq!['/'] + name@,
{
    std::path::Path::new(dir).join(name).to_string_lossy().into_owned()
}

/// The path of the cache file of one monitor and kind inside the cache
/// directory `cache_dir`.
pub fn raw_path(cache_dir: &str, monitor: &str, kind: &str) -> (path: String)
    ensures
        path@ == joined_path(cache_dir@, raw_file_name_spec(monitor@, kind@)),
        cache_dir@.len() > 0 && cache_dir@.last() != '/' && !(monitor@.len() > 0 && monitor@[0] == '/')
            ==> path@ == cache_dir@ + seq!['/'] + raw_file_name_spec(monitor@, kind@),
{
    let name = raw_file_name(monitor, kind);
    join_path(cache_dir, name.as_str())
}

/// An encoded header with a 16-byte mode field has 40 bytes.
proof fn lemma_header_len(h: HeaderView)
    requires
        h.magic.len() == 8,
        h.mode.len() == 16,
    ensures
        header_bytes(h).len() == 40,
{
    lemma_native_u32_bytes(h.width, h.width);
    lemma_native_u32_bytes(h.height, h.height);
    lemma_native_u32_bytes(h.stride, h.stride);
    lemma_native_u32_bytes(h.blur, h.blur);
}

/// The word stored in a range that holds the encoding of `x` is `x`.
proof fn lemma_word_at_encoding(b: Seq<u8>, at: int, x: u32)
    requires
        0 <= at,
        at + 4 <= b.len(),
        b.subrange(at, at + 4) == native_u32_bytes(x),
    ensures
        word_at(b, at) == x,
{
    let y = word_at(b, at);
    assert(native_u32_bytes(y) == b.subrange(at, at + 4));
    lemma_native_u32_bytes(x, y);
}

/// Decoding an encoded header gives the header back, for any mode and any
/// blur, when both dimensions are at most 16384.
pub proof fn lemma_header_roundtrip(width: u32, height: u32, blur: u32, mode: Seq<u8>)
    requires
        width <= MAX_CACHED_DIMENSION,
        height <= MAX_CACHED_DIMENSION,
    ensures
        parse_header(header_bytes(header_for(width, height, blur, mode))) == Some(
            header_for(width, height, blur, mode),
        ),
{
    let h = header_for(width, height, blur, mode);
    let b = header_bytes(h);
    lemma_native_u32_bytes(h.width, h.width);
    lemma_native_u32_bytes(h.height, h.height);
    lemma_native_u32_bytes(h.stride, h.stride);
    lemma_native_u32_bytes(h.blur, h.blur);
    assert(b.len() == 40);
    assert(b.subrange(0, 8) =~= h.magic);
    assert(b.subrange(8, 12) =~= native_u32_bytes(h.width));
    assert(b.subrange(12, 16) =~= native_u32_bytes(h.height));
    assert(b.subrange(16, 20) =~= native_u32_bytes(h.stride));
    assert(b.subrange(20, 24) =~= native_u32_bytes(h.blur));
    assert(b.subrange(24, 40) =~= h.mode);
    lemma_word_at_encoding(b, 8, h.width);
    lemma_word_at_encoding(b, 12, h.height);
    lemma_word_at_encoding(b, 16, h.stride);
    lemma_word_at_encoding(b, 20, h.blur);
}

/// Loading a cache file gives back the pixels that were written to it, with
/// their dimensions, when it is loaded for the size, blur and mode it was
/// written with, the dimensions are at most 16384 and the pixels fill
/// `4 * width * height` bytes.
pub proof fn lemma_raw_cache_roundtrip(width: u32, height: u32, blur: u32, mode: Seq<u8>, pixels: Seq<u8>)
    requires
        width <= MAX_CACHED_DIMENSION,
        height <= MAX_CACHED_DIMENSION,
        pixels.len() == width as int * 4 * height as int,
    ensures
        loaded_raw_cache(raw_cache_bytes(width, height, blur, mode, pixels), width, height, blur, mode)
            == Some((pixels, width, height)),
{
    let h = header_for(width, height, blur, mode);
    let data = raw_cache_bytes(width, height, blur, mode, pixels);
    lemma_header_roundtrip(width, height, blur, mode);
    lemma_header_len(h);
    assert(data.subrange(0, 40) =~= header_bytes(h));
    assert(parse_header(data) == parse_header(header_bytes(h))) by {
        assert(data.subrange(0, 8) =~= header_bytes(h).subrange(0, 8));
        assert(data.subrange(8, 12) =~= header_bytes(h).subrange(8, 12));
        assert(data.subrange(12, 16) =~= header_bytes(h).subrange(12, 16));
        assert(data.subrange(16, 20) =~= header_bytes(h).subrange(16, 20));
        assert(data.subrange(20, 24) =~= header_bytes(h).subrange(20, 24));
        assert(data.subrange(24, 40) =~= header_bytes(h).subrange(24, 40));
    }
    assert(data.subrange(40, data.len() as int) =~= pixels);
    assert(h.stride as int * h.height as int == width as int * 4 * height as int);
}

/// A cache file is refused when it is loaded for another size, blur or mode
/// field than it was written with.
pub proof fn lemma_raw_cache_refuses_other_request(
    width: u32,
    height: u32,
    blur: u32,
    mode: Seq<u8>,
    pixels: Seq<u8>,
    other_width: u32,
    other_height: u32,
    other_blur: u32,
    other_mode: Seq<u8>,
)
    requires
        width <= MAX_CACHED_DIMENSION,
        height <= MAX_CACHED_DIMENSION,
        width != other_width || height != other_height || blur != other_blur || mode_field(mode)
            != mode_field(other_mode),
    ensures
        loaded_raw_cache(
            raw_cache_bytes(width, height, blur, mode, pixels),
            other_width,
            other_height,
            other_blur,
            other_mode,
        ) is None,
{
    let h = header_for(width, height, blur, mode);
    let data = raw_cache_bytes(width, height, blur, mode, pixels);
    lemma_header_roundtrip(width, height, blur, mode);
    lemma_header_len(h);
    assert(parse_header(data) == parse_header(header_bytes(h))) by {
        assert(data.subrange(0, 8) =~= header_bytes(h).subrange(0, 8));
        assert(data.subrange(8, 12) =~= header_bytes(h).subrange(8, 12));
        assert(data.subrange(12, 16) =~= header_bytes(h).subrange(12, 16));
        assert(data.subrange(16, 20) =~= header_bytes(h).subrange(16, 20));
        assert(data.subrange(20, 24) =~= header_bytes(h).subrange(20, 24));
        assert(data.subrange(24, 40) =~= header_bytes(h).subrange(24, 40));
    }
}

} // verus!
