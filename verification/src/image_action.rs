//! What is done with a finished image: nothing, or a PNG file named by the
//! hash of its pixels.
//!
//! This module turns quantised pixels into the bytes of the file and gives
//! the file its name. Encoding the PNG and writing it to disk is the
//! caller's business.

use sha2::{Digest, Sha256};
use vstd::prelude::*;
use vstd::string::StringExecFns;

verus! {

/// The display word of a pixel: `X8 R8 G8 B8` with the unused byte set.
pub open spec fn xrgb_spec(red: u32, green: u32, blue: u32) -> u32 {
    0xFF00_0000u32 | (red << 16) | (green << 8) | blue
}

/// Packs quantised channels into the display word of a pixel. Channels up
/// to 255 land in their own byte; a larger channel spills into the bytes
/// above it.
pub fn xrgb(red: u32, green: u32, blue: u32) -> (word: u32)
    ensures
        word == xrgb_spec(red, green, blue),
        red <= 255 && green <= 255 && blue <= 255 ==> {
            &&& word >> 24 == 0xFF
            &&& (word >> 16) & 0xFF == red
            &&& (word >> 8) & 0xFF == green
            &&& word & 0xFF == blue
        },
{
    let word = (255u32 << 24) | (red << 16) | (green << 8) | blue;
    assert(word == 0xFF00_0000u32 | (red << 16) | (green << 8) | blue) by (bit_vector)
        requires
            word == (255u32 << 24) | (red << 16) | (green << 8) | blue,
    ;
    assert(red <= 255 && green <= 255 && blue <= 255 ==> word >> 24 == 0xFF && (word >> 16) & 0xFF
        == red && (word >> 8) & 0xFF == green && word & 0xFF == blue) by (bit_vector)
        requires
            word == 0xFF00_0000u32 | (red << 16) | (green << 8) | blue,
    ;
    word
}

/// The file word of a pixel: `R8 G8 B8 A8` with full opacity.
pub open spec fn rgba_spec(red: u32, green: u32, blue: u32) -> u32 {
    (red << 24) | (green << 16) | (blue << 8) | 255u32
}

/// Packs quantised channels into the file word of a pixel.
pub fn rgba(red: u32, green: u32, blue: u32) -> (word: u32)
    ensures
        word == rgba_spec(red, green, blue),
        red <= 255 && green <= 255 && blue <= 255 ==> {
            &&& word >> 24 == red
            &&& (word >> 16) & 0xFF == green
            &&& (word >> 8) & 0xFF == blue
            &&& word & 0xFF == 0xFF
        },
{
    let word = (red << 24) | (green << 16) | (blue << 8) | 255u32;
    assert(red <= 255 && green <= 255 && blue <= 255 ==> word >> 24 == red && (word >> 16) & 0xFF
        == green && (word >> 8) & 0xFF == blue && word & 0xFF == 0xFF) by (bit_vector)
        requires
            word == (red << 24) | (green << 16) | (blue << 8) | 255u32,
    ;
    word
}

/// Byte number `k` of a word, counted from the most significant.
pub open spec fn be_byte(word: u32, k: int) -> u8 {
    if k == 0 {
        (word >> 24) as u8
    } else if k == 1 {
        ((word >> 16) & 0xFF) as u8
    } else if k == 2 {
        ((word >> 8) & 0xFF) as u8
    } else {
        (word & 0xFF) as u8
    }
}

/// The bytes of `words`, each word as its four bytes, most significant
/// first.
pub open spec fn be_bytes(words: Seq<u32>) -> Seq<u8> {
    Seq::new(4 * words.len(), |j: int| be_byte(words[j / 4], j % 4))
}

/// Writes each word as its four bytes, most significant first.
pub fn words_to_bytes(words: &Vec<u32>) -> (bytes: Vec<u8>)
    ensures
        bytes@ == be_bytes(words@),
{
    let mut bytes: Vec<u8> = Vec::new();
    let mut i: usize = 0;
    while i < words.len()
        invariant
            i <= words@.len(),
            bytes@.len() == 4 * i,
            forall|j: int| 0 <= j < bytes@.len() ==> bytes@[j] == be_byte(words@[j / 4], j % 4),
        decreases words@.len() - i,
    {
        let word = words[i];
        assert(word >> 24 <= 0xFF && (word >> 16) & 0xFF <= 0xFF && (word >> 8) & 0xFF <= 0xFF
            && word & 0xFF <= 0xFF) by (bit_vector);
        bytes.push((word >> 24) as u8);
        bytes.push(((word >> 16) & 0xFF) as u8);
        bytes.push(((word >> 8) & 0xFF) as u8);
        bytes.push((word & 0xFF) as u8);
        i = i + 1;
    }
    assert(bytes@ =~= be_bytes(words@));
    bytes
}

/// The character of one hexadecimal digit, in upper case.
pub open spec fn hex_char(d: int) -> char {
    if d == 0 {
        '0'
    } else if d == 1 {
        '1'
    } else if d == 2 {
        '2'
    } else if d == 3 {
        '3'
    } else if d == 4 {
        '4'
    } else if d == 5 {
        '5'
    } else if d == 6 {
        '6'
    } else if d == 7 {
        '7'
    } else if d == 8 {
        '8'
    } else if d == 9 {
        '9'
    } else if d == 10 {
        'A'
    } else if d == 11 {
        'B'
    } else if d == 12 {
        'C'
    } else if d == 13 {
        'D'
    } else if d == 14 {
        'E'
    } else {
        'F'
    }
}

/// `bytes` in upper-case hexadecimal, two digits to a byte.
pub open spec fn upper_hex(bytes: Seq<u8>) -> Seq<char> {
    Seq::new(
        2 * bytes.len(),
        |j: int|
            if j % 2 == 0 {
                hex_char(bytes[j / 2] as int / 16)
            } else {
                hex_char(bytes[j / 2] as int % 16)
            },
    )
}

fn hex_str(d: u8) -> (s: &'static str)
    requires
        d < 16,
    ensures
        s@ == seq![hex_char(d as int)],
{
    proof {
        reveal_strlit("0");
        reveal_strlit("1");
        reveal_strlit("2");
        reveal_strlit("3");
        reveal_strlit("4");
        reveal_strlit("5");
        reveal_strlit("6");
        reveal_strlit("7");
        reveal_strlit("8");
        reveal_strlit("9");
        reveal_strlit("A");
        reveal_strlit("B");
        reveal_strlit("C");
        reveal_strlit("D");
        reveal_strlit("E");
        reveal_strlit("F");
    }
    let s = if d == 0 {
        "0"
    } else if d == 1 {
        "1"
    } else if d == 2 {
        "2"
    } else if d == 3 {
        "3"
    } else if d == 4 {
        "4"
    } else if d == 5 {
        "5"
    } else if d == 6 {
        "6"
    } else if d == 7 {
        "7"
    } else if d == 8 {
        "8"
    } else if d == 9 {
        "9"
    } else if d == 10 {
        "A"
    } else if d == 11 {
        "B"
    } else if d == 12 {
        "C"
    } else if d == 13 {
        "D"
    } else if d == 14 {
        "E"
    } else {
        "F"
    };
    assert(s@ =~= seq![hex_char(d as int)]);
    s
}

/// Writes `bytes` in upper-case hexadecimal.
pub fn to_upper_hex(bytes: &Vec<u8>) -> (text: String)
    ensures
        text@ == upper_hex(bytes@),
{
    let mut text = String::new();
    let mut i: usize = 0;
    while i < bytes.len()
        invariant
            i <= bytes@.len(),
            text@.len() == 2 * i,
            forall|j: int|
                0 <= j < text@.len() ==> text@[j] == (if j % 2 == 0 {
                    hex_char(bytes@[j / 2] as int / 16)
                } else {
                    hex_char(bytes@[j / 2] as int % 16)
                }),
        decreases bytes@.len() - i,
    {
        let byte = bytes[i];
        text.append(hex_str(byte / 16));
        text.append(hex_str(byte % 16));
        i = i + 1;
    }
    assert(text@ =~= upper_hex(bytes@));
    text
}

/// The SHA-256 digest of `data`.
pub uninterp spec fn sha256(data: Seq<u8>) -> Seq<u8>;

/// `Sha256` of the `sha2` crate, fed `data` in one piece: the digest of
/// `data`, which is a function of `data` alone.
#[verifier::external_body]
fn sha256_digest(data: &Vec<u8>) -> (digest: Vec<u8>)
    ensures
        digest@ == sha256(data@),
{
    let mut sha = Sha256::new();
    sha.update(data);
    sha.finalize().to_vec()
}

/// The image action that does nothing.
#[derive(Clone, Copy, Debug, Default)]
pub struct NoAction {}

/// The image action that parks the image until it is asked for again.
#[derive(Clone, Copy, Debug, Default)]
pub struct WaitForSignal {}

/// The image action that saves the image as a PNG file.
#[derive(Clone, Copy, Debug, Default)]
pub struct SavePng {}

/// A PNG file that is ready to be written: its name within the output
/// directory, and its pixels as `R8 G8 B8 A8` bytes.
#[derive(Debug, PartialEq, Eq)]
pub struct PngFile {
    pub name: String,
    pub data: Vec<u8>,
}

impl SavePng {
    /// The file words of quantised pixels, each pixel given as its red,
    /// green and blue channel.
    pub open spec fn words_spec(pixels: Seq<(u32, u32, u32)>) -> Seq<u32> {
        Seq::new(pixels.len(), |i: int| rgba_spec(pixels[i].0, pixels[i].1, pixels[i].2))
    }

    /// Packs quantised pixels into file words.
    pub fn words(pixels: &Vec<(u32, u32, u32)>) -> (words: Vec<u32>)
        ensures
            words@ == Self::words_spec(pixels@),
    {
        let mut words: Vec<u32> = Vec::new();
        let mut i: usize = 0;
        while i < pixels.len()
            invariant
                i <= pixels@.len(),
                words@.len() == i,
                forall|j: int|
                    0 <= j < i ==> words@[j] == rgba_spec(pixels@[j].0, pixels@[j].1, pixels@[j].2),
            decreases pixels@.len() - i,
        {
            let pixel = pixels[i];
            words.push(rgba(pixel.0, pixel.1, pixel.2));
            i = i + 1;
        }
        assert(words@ =~= Self::words_spec(pixels@));
        words
    }

    /// The name of the file whose pixel bytes have the digest `digest`: the
    /// digest in upper-case hexadecimal, with the extension `png`.
    pub fn file_name(digest: &Vec<u8>) -> (name: String)
        ensures
            name@ == upper_hex(digest@) + ".png"@,
    {
        let mut name = to_upper_hex(digest);
        name.append(".png");
        name
    }

    /// Prepares the file for an image of quantised pixels, where an output
    /// directory is configured; without one there is nothing to save. The
    /// file holds the pixels as `R8 G8 B8 A8` bytes and is named by the
    /// SHA-256 digest of those bytes.
    pub fn prepare(&self, pixels: &Vec<(u32, u32, u32)>, image_output_dir: &Option<String>) -> (file:
        Option<PngFile>)
        ensures
            file is Some <==> image_output_dir is Some,
            file matches Some(png) ==> {
                &&& png.data@ == be_bytes(Self::words_spec(pixels@))
                &&& png.name@ == upper_hex(sha256(png.data@)) + ".png"@
            },
    {
        match image_output_dir {
            Some(_) => {
                let words = Self::words(pixels);
                let data = words_to_bytes(&words);
                let digest = sha256_digest(&data);
                let name = Self::file_name(&digest);
                Some(PngFile { name, data })
            },
            None => None,
        }
    }
}

} // verus!
