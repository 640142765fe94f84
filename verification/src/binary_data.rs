//! The records of the alias file and their binary form.
//!
//! A record starts with one byte whose low four bits name its kind. Text is
//! stored as a two-byte little-endian length followed by its UTF-8 bytes.
use vstd::prelude::*;
use vstd::utf8::*;


verus! {

broadcast use {vstd::utf8::encode_utf8_decode_utf8, vstd::utf8::encode_utf8_valid_utf8};

/// One record of the alias file.
#[derive(Debug)]
pub enum BinaryType {
    /// The file that a replacement targets when none is named.
    SetFile(String),
    /// An alias and the file it stands for.
    AliasEntry((String, String)),
    /// The options kept between runs.
    Flags { sym_link: bool, silent: bool },
}

/// What a record holds, its text taken as characters.
pub enum BinaryValue {
    SetFile(Seq<char>),
    AliasEntry(Seq<char>, Seq<char>),
    Flags { sym_link: bool, silent: bool },
}

impl View for BinaryType {
    type V = BinaryValue;

    open spec fn view(&self) -> BinaryValue {
        match self {
            BinaryType::SetFile(file) => BinaryValue::SetFile(file@),
            BinaryType::AliasEntry((alias, path)) => BinaryValue::AliasEntry(alias@, path@),
            BinaryType::Flags { sym_link, silent } => BinaryValue::Flags {
                sym_link: *sym_link,
                silent: *silent,
            },
        }
    }
}

/// The kind byte of a record.
pub open spec fn kind_of(value: BinaryValue) -> u8 {
    match value {
        BinaryValue::SetFile(_) => 0,
        BinaryValue::AliasEntry(_, _) => 1,
        BinaryValue::Flags { .. } => 2,
    }
}

/// A length as it is stored: its low sixteen bits, little-endian.
pub open spec fn le16(n: nat) -> Seq<u8> {
    let m = n % 0x10000;
    seq![(m % 256) as u8, (m / 256) as u8]
}

/// A text as it is stored: its UTF-8 length, then its UTF-8 bytes.
pub open spec fn encode_text(text: Seq<char>) -> Seq<u8> {
    le16(encode_utf8(text).len()) + encode_utf8(text)
}

/// The byte that holds both flags: bit 0 for `sym_link`, bit 1 for `silent`.
pub open spec fn flags_byte(sym_link: bool, silent: bool) -> u8 {
    ((if sym_link { 1int } else { 0int }) + (if silent { 2int } else { 0int })) as u8
}

/// The bytes of one record.
pub open spec fn encode_value(value: BinaryValue) -> Seq<u8> {
    match value {
        BinaryValue::SetFile(file) => seq![0u8] + encode_text(file),
        BinaryValue::AliasEntry(alias, path) => seq![1u8] + encode_text(alias) + encode_text(path),
        BinaryValue::Flags { sym_link, silent } => seq![2u8, flags_byte(sym_link, silent)],
    }
}

/// The raw text that a record reader takes from the front of `bytes`, and how
/// many bytes it consumes. The length field must be whole; a zero length, or
/// no byte after it, ends the reading. When fewer bytes remain than the length
/// asks for, the reader takes what remains and pads it with zero bytes.
pub open spec fn read_text_bytes(bytes: Seq<u8>) -> Option<(Seq<u8>, int)> {
    if bytes.len() < 2 {
        None
    } else {
        let size = bytes[0] + 256 * bytes[1];
        let rest = bytes.skip(2);
        if size == 0 || rest.len() == 0 {
            None
        } else {
            let k = if size <= rest.len() { size } else { rest.len() as int };
            Some((rest.take(k) + Seq::new((size - k) as nat, |i: int| 0u8), 2 + k))
        }
    }
}

/// The text that a record reader takes from the front of `bytes`: its raw
/// bytes must be valid UTF-8.
pub open spec fn read_text(bytes: Seq<u8>) -> Option<(Seq<char>, int)> {
    match read_text_bytes(bytes) {
        Some((raw, n)) => if valid_utf8(raw) {
            Some((decode_utf8(raw), n))
        } else {
            None
        },
        None => None,
    }
}

/// The record at the front of `bytes`, and how many bytes it takes; `None`
/// where no whole record can be read there.
pub open spec fn decode_entry(bytes: Seq<u8>) -> Option<(BinaryValue, int)> {
    if bytes.len() == 0 {
        None
    } else {
        let kind = bytes[0] % 16;
        let rest = bytes.skip(1);
        if kind == 0 {
            match read_text(rest) {
                Some((file, n)) => Some((BinaryValue::SetFile(file), 1 + n)),
                None => None,
            }
        } else if kind == 1 {
            match read_text(rest) {
                Some((alias, n)) => match read_text(rest.skip(n)) {
                    Some((path, m)) => Some((BinaryValue::AliasEntry(alias, path), 1 + n + m)),
                    None => None,
                },
                None => None,
            }
        } else if kind == 2 {
            if rest.len() == 0 {
                None
            } else {
                Some(
                    (
                        BinaryValue::Flags {
                            sym_link: rest[0] % 2 == 1,
                            silent: (rest[0] / 2) % 2 == 1,
                        },
                        2,
                    ),
                )
            }
        } else {
            None
        }
    }
}

/// The records read one after the other from the front of `bytes`, up to the
/// first place where no record can be read.
pub open spec fn decode_entries(bytes: Seq<u8>) -> Seq<BinaryValue>
    decreases bytes.len(),
{
    match decode_entry(bytes) {
        Some((value, n)) => if 0 < n <= bytes.len() {
            seq![value] + decode_entries(bytes.skip(n))
        } else {
            seq![]
        },
        None => seq![],
    }
}

/// A text can be stored and read back: it is not empty and its UTF-8 form
/// fits in a sixteen-bit length.
pub open spec fn storable(text: Seq<char>) -> bool {
    0 < encode_utf8(text).len() <= 0xffff
}

/// A record whose texts are all storable.
pub open spec fn storable_value(value: BinaryValue) -> bool {
    match value {
        BinaryValue::SetFile(file) => storable(file),
        BinaryValue::AliasEntry(alias, path) => storable(alias) && storable(path),
        BinaryValue::Flags { .. } => true,
    }
}

/// A whole record read takes at least one byte and no more than there are.
pub proof fn lemma_decode_entry_consumes(bytes: Seq<u8>)
    ensures
        decode_entry(bytes) matches Some((_, n)) ==> 0 < n <= bytes.len(),
{
}

/// Reading a stored text gives it back, whatever follows it.
pub proof fn lemma_text_roundtrip(text: Seq<char>, rest: Seq<u8>)
    requires
        storable(text),
    ensures
        read_text(encode_text(text) + rest) == Some((text, encode_text(text).len() as int)),
{
    let raw = encode_utf8(text);
    let bytes = encode_text(text) + rest;
    let len = raw.len();
    assert(bytes[0] + 256 * bytes[1] == len);
    assert(bytes.skip(2) =~= raw + rest);
    assert((raw + rest).take(len as int) =~= raw);
    assert(raw + Seq::new(0, |i: int| 0u8) =~= raw);
}

/// Reading a stored record gives it back, whatever follows it.
pub proof fn lemma_value_roundtrip(value: BinaryValue, rest: Seq<u8>)
    requires
        storable_value(value),
    ensures
        decode_entry(encode_value(value) + rest) == Some((value, encode_value(value).len() as int)),
{
    let bytes = encode_value(value) + rest;
    match value {
        BinaryValue::SetFile(file) => {
            assert(bytes.skip(1) =~= encode_text(file) + rest);
            lemma_text_roundtrip(file, rest);
            assert(bytes[0] == 0u8);
        },
        BinaryValue::AliasEntry(alias, path) => {
            lemma_alias_roundtrip(alias, path, rest);
        },
        BinaryValue::Flags { sym_link, silent } => {
            let b = flags_byte(sym_link, silent);
            assert(b % 2 == 1 <==> sym_link);
            assert((b / 2) % 2 == 1 <==> silent);
            assert(bytes[0] == 2u8 && bytes[1] == b);
            assert(bytes.skip(1)[0] == b);
        },
    }
}

proof fn lemma_alias_roundtrip(alias: Seq<char>, path: Seq<char>, rest: Seq<u8>)
    requires
        storable(alias),
        storable(path),
    ensures
        decode_entry(encode_value(BinaryValue::AliasEntry(alias, path)) + rest) == Some(
            (
                BinaryValue::AliasEntry(alias, path),
                encode_value(BinaryValue::AliasEntry(alias, path)).len() as int,
            ),
        ),
{
    let value = BinaryValue::AliasEntry(alias, path);
    let bytes = encode_value(value) + rest;
    let tail = encode_text(path) + rest;
    let n = encode_text(alias).len() as int;
    assert(bytes[0] == 1u8);
    assert(bytes.skip(1) =~= encode_text(alias) + tail);
    lemma_text_roundtrip(alias, tail);
    assert(read_text(bytes.skip(1)) == Some((alias, n)));
    assert(bytes.skip(1).skip(n) =~= tail);
    lemma_text_roundtrip(path, rest);
    assert(read_text(bytes.skip(1).skip(n)) == Some((path, encode_text(path).len() as int)));
    assert(encode_value(value).len() == 1 + n + encode_text(path).len());
}

/// Records stored one after the other are read back in order, and the
/// reading goes on with whatever follows them.
pub proof fn lemma_values_roundtrip(values: Seq<BinaryValue>, rest: Seq<u8>)
    requires
        forall|i: int| 0 <= i < values.len() ==> storable_value(#[trigger] values[i]),
    ensures
        decode_entries(encode_values(values) + rest) == values + decode_entries(rest),
    decreases values.len(),
{
    if values.len() == 0 {
        assert(encode_values(values) + rest =~= rest);
        assert(values + decode_entries(rest) =~= decode_entries(rest));
    } else {
        let first = values[0];
        let tail = values.drop_first();
        assert(storable_value(first));
        assert forall|i: int| 0 <= i < tail.len() implies storable_value(#[trigger] tail[i]) by {
            assert(tail[i] == values[i + 1]);
        }
        let bytes = encode_values(values) + rest;
        let after = encode_values(tail) + rest;
        assert(bytes =~= encode_value(first) + after);
        lemma_value_roundtrip(first, after);
        assert(bytes.skip(encode_value(first).len() as int) =~= after);
        lemma_values_roundtrip(tail, rest);
        assert(values =~= seq![first] + tail);
    }
}

/// The bytes of records stored one after the other.
pub open spec fn encode_values(values: Seq<BinaryValue>) -> Seq<u8>
    decreases values.len(),
{
    if values.len() == 0 {
        seq![]
    } else {
        encode_value(values[0]) + encode_values(values.drop_first())
    }
}

/// Appends the stored form of `text` to `bin`.
fn push_text(bin: &mut Vec<u8>, text: &String)
    ensures
        final(bin)@ == old(bin)@ + encode_text(text@),
{
    let bytes = text.as_str().as_bytes();
    let len = bytes.len() % 0x10000;
    bin.push((len % 256) as u8);
    bin.push((len / 256) as u8);
    let ghost before = bin@;
    let mut i: usize = 0;
    while i < bytes.len()
        invariant
            i <= bytes@.len(),
            bin@ == before + bytes@.take(i as int),
        decreases bytes@.len() - i,
    {
        bin.push(bytes[i]);
        assert(bytes@.take(i + 1) =~= bytes@.take(i as int).push(bytes@[i as int]));
        i = i + 1;
    }
    assert(bytes@.take(i as int) =~= bytes@);
    assert(bin@ =~= old(bin)@ + encode_text(text@));
}

impl BinaryType {
    /// The kind byte of this record.
    pub fn discriminant(&self) -> (kind: u8)
        ensures
            kind == kind_of(self@),
    {
        match self {
            BinaryType::SetFile(_) => 0,
            BinaryType::AliasEntry(_) => 1,
            BinaryType::Flags { .. } => 2,
        }
    }

    /// The bytes of this record.
    pub fn into_bin(self) -> (bin: Vec<u8>)
        ensures
            bin@ == encode_value(self@),
    {
        let meta = self.discriminant();
        match self {
            BinaryType::SetFile(file) => {
                let mut bin: Vec<u8> = Vec::new();
                bin.push(meta);
                push_text(&mut bin, &file);
                bin
            },
            BinaryType::AliasEntry((alias, path)) => {
                let mut bin: Vec<u8> = Vec::new();
                bin.push(meta);
                push_text(&mut bin, &alias);
                push_text(&mut bin, &path);
                bin
            },
            BinaryType::Flags { sym_link, silent } => {
                let mut flags: u8 = if sym_link { 1 } else { 0 };
                if silent {
                    flags = flags + 2;
                }
                vec![meta, flags]
            },
        }
    }
}

/// Calls `String::from_utf8`. Its documentation says that it accepts exactly
/// the byte sequences that are valid UTF-8 and that the string it returns holds
/// those bytes; the contract says this with vstd's UTF-8 definitions.
#[verifier::external_body]
fn string_from_utf8(bytes: Vec<u8>) -> (text: Option<String>)
    ensures
        text is Some <==> valid_utf8(bytes@),
        text matches Some(t) ==> encode_utf8(t@) == bytes@,
{
    String::from_utf8(bytes).ok()
}

/// Reads records from the bytes of an alias file, front to back.
pub struct BinaryContainer {
    buf: Vec<u8>,
    pos: usize,
}

impl BinaryContainer {
    #[verifier::type_invariant]
    spec fn inv(self) -> bool {
        self.pos <= self.buf@.len()
    }

    /// The bytes not read yet.
    pub closed spec fn remaining(self) -> Seq<u8> {
        self.buf@.skip(self.pos as int)
    }

    /// A reader at the start of `buf`.
    pub fn new(buf: Vec<u8>) -> (reader: Self)
        ensures
            reader.remaining() == buf@,
    {
        let reader = BinaryContainer { buf, pos: 0 };
        assert(reader.buf@.skip(0) =~= reader.buf@);
        reader
    }

    fn read_u8(&mut self) -> (byte: Option<u8>)
        ensures
            old(self).remaining().len() == 0 ==> byte is None,
            old(self).remaining().len() > 0 ==> byte == Some(old(self).remaining()[0])
                && final(self).remaining() == old(self).remaining().skip(1),
    {
        proof {
            use_type_invariant(&*self);
        }
        if self.pos < self.buf.len() {
            let byte = self.buf[self.pos];
            let ghost before = self.remaining();
            self.pos = self.pos + 1;
            assert(self.remaining() =~= before.skip(1));
            Some(byte)
        } else {
            None
        }
    }

    fn read_text_bytes(&mut self) -> (raw: Option<Vec<u8>>)
        ensures
            match read_text_bytes(old(self).remaining()) {
                Some((bytes, n)) => raw matches Some(r) && r@ == bytes && final(self).remaining()
                    == old(self).remaining().skip(n),
                None => raw is None,
            },
    {
        proof {
            use_type_invariant(&*self);
        }
        let ghost rem = self.remaining();
        let len = self.buf.len();
        if len - self.pos < 2 {
            return None;
        }
        let size: usize = (self.buf[self.pos] as usize) + 256 * (self.buf[self.pos + 1] as usize);
        assert(rem[0] == self.buf@[self.pos as int] && rem[1] == self.buf@[self.pos + 1]);
        let start = self.pos + 2;
        let avail = len - start;
        if size == 0 || avail == 0 {
            return None;
        }
        let k = if size <= avail { size } else { avail };
        let mut data: Vec<u8> = Vec::new();
        let mut i: usize = 0;
        while i < k
            invariant
                i <= k,
                k <= avail,
                start + avail == len,
                len == self.buf@.len(),
                data@ == self.buf@.subrange(start as int, start + i),
            decreases k - i,
        {
            data.push(self.buf[start + i]);
            assert(self.buf@.subrange(start as int, start + i + 1) =~= self.buf@.subrange(
                start as int,
                start + i,
            ).push(self.buf@[start + i]));
            i = i + 1;
        }
        let ghost taken = data@;
        let mut j: usize = k;
        while j < size
            invariant
                k <= j <= size,
                data@ == taken + Seq::new((j - k) as nat, |x: int| 0u8),
            decreases size - j,
        {
            data.push(0);
            assert(taken + Seq::new((j + 1 - k) as nat, |x: int| 0u8) =~= (taken + Seq::new(
                (j - k) as nat,
                |x: int| 0u8,
            )).push(0u8));
            j = j + 1;
        }
        self.pos = start + k;
        assert(rem.skip(2).take(k as int) =~= taken);
        assert(self.remaining() =~= rem.skip(2 + k));
        Some(data)
    }

    fn read_text(&mut self) -> (text: Option<String>)
        ensures
            match read_text(old(self).remaining()) {
                Some((t, n)) => text matches Some(s) && s@ == t && final(self).remaining()
                    == old(self).remaining().skip(n),
                None => text is None,
            },
    {
        match self.read_text_bytes() {
            Some(raw) => string_from_utf8(raw),
            None => None,
        }
    }

    /// Reads the next record; `None` where no whole record can be read.
    pub fn next(&mut self) -> (entry: Option<BinaryType>)
        ensures
            match decode_entry(old(self).remaining()) {
                Some((value, n)) => entry matches Some(e) && e@ == value && final(self).remaining()
                    == old(self).remaining().skip(n),
                None => entry is None,
            },
    {
        let ghost rem = self.remaining();
        let meta = match self.read_u8() {
            Some(m) => m,
            None => return None,
        };
        let ident = meta & 0xf;
        assert(meta & 0xf == meta % 16) by (bit_vector);
        if ident == 0 {
            match self.read_text() {
                Some(file) => {
                    proof {
                        let n = read_text(rem.skip(1)).unwrap().1;
                        assert(rem.skip(1).skip(n) =~= rem.skip(1 + n));
                    }
                    Some(BinaryType::SetFile(file))
                },
                None => None,
            }
        } else if ident == 1 {
            let alias = match self.read_text() {
                Some(a) => a,
                None => return None,
            };
            let path = match self.read_text() {
                Some(p) => p,
                None => return None,
            };
            proof {
                let n = read_text(rem.skip(1)).unwrap().1;
                let m = read_text(rem.skip(1).skip(n)).unwrap().1;
                assert(rem.skip(1).skip(n) =~= rem.skip(1 + n));
                assert(rem.skip(1 + n).skip(m) =~= rem.skip(1 + n + m));
            }
            Some(BinaryType::AliasEntry((alias, path)))
        } else if ident == 2 {
            let flags = match self.read_u8() {
                Some(f) => f,
                None => return None,
            };
            assert(flags & 1 != 0 <==> flags % 2 == 1) by (bit_vector);
            assert(flags & 2 != 0 <==> (flags / 2) % 2 == 1) by (bit_vector);
            proof {
                assert(rem.skip(1).skip(1) =~= rem.skip(2));
            }
            Some(BinaryType::Flags { sym_link: flags & 1 != 0, silent: flags & 2 != 0 })
        } else {
            None
        }
    }
}

/// Something that records can be read from.
pub trait BinaryReader: Sized {
    /// A reader of the records held in `self`.
    fn binary_data(self) -> BinaryContainer;
}

impl BinaryReader for Vec<u8> {
    fn binary_data(self) -> (reader: BinaryContainer)
        ensures
            reader.remaining() == self@,
    {
        BinaryContainer::new(self)
    }
}

/// Something that records can be written to.
pub trait BinaryWritter {
    /// Writes the bytes of `value`.
    fn write_bin(&mut self, value: BinaryType) -> Result<(), std::io::Error>;
}

impl BinaryWritter for Vec<u8> {
    fn write_bin(&mut self, value: BinaryType) -> (written: Result<(), std::io::Error>)
        ensures
            written is Ok,
            final(self)@ == old(self)@ + encode_value(value@),
    {
        let mut bin = value.into_bin();
        self.append(&mut bin);
        Ok(())
    }
}

} // verus!
