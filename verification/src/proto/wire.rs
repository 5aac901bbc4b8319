//! The primitive wire types: variable-length integers, byte strings and booleans.

use vstd::prelude::*;
use vstd::slice::{slice_subrange, slice_to_vec};

verus! {

pub const MIN_VARINT: u64 = 0;

pub const MAX_VARINT: u64 = 4_611_686_018_427_387_903;

const MAX_VARINT_1: u64 = 63;

const MAX_VARINT_2: u64 = 16_383;

const MAX_VARINT_4: u64 = 1_073_741_823;

/// Why a value could not be read from the wire.
#[derive(Clone, Debug, PartialEq, Eq)]
pub enum Error {
    /// The input ended before the value did.
    UnexpectedEof,
    /// A boolean is written as 0 or 1; this byte is neither.
    InvalidBool(u8),
    /// The announced length does not fit in memory.
    InvalidLength(u64),
    UnknownMessageType(u64),
    UnknownRequestType(Vec<u8>),
    InvalidForwardingProtocol(u64),
    InvalidAddressFamily(u64),
}

/// The mathematical counterpart of [`Error`].
pub enum ErrorView {
    UnexpectedEof,
    InvalidBool(u8),
    InvalidLength(u64),
    UnknownMessageType(u64),
    UnknownRequestType(Seq<u8>),
    InvalidForwardingProtocol(u64),
    InvalidAddressFamily(u64),
}

impl View for Error {
    type V = ErrorView;

    open spec fn view(&self) -> ErrorView {
        match *self {
            Error::UnexpectedEof => ErrorView::UnexpectedEof,
            Error::InvalidBool(value) => ErrorView::InvalidBool(value),
            Error::InvalidLength(length) => ErrorView::InvalidLength(length),
            Error::UnknownMessageType(kind) => ErrorView::UnknownMessageType(kind),
            Error::UnknownRequestType(kind) => ErrorView::UnknownRequestType(kind@),
            Error::InvalidForwardingProtocol(protocol) => ErrorView::InvalidForwardingProtocol(
                protocol,
            ),
            Error::InvalidAddressFamily(family) => ErrorView::InvalidAddressFamily(family),
        }
    }
}

/// Why a parser stopped, and the bytes behind what it had read by then. An input that ends too
/// early is read to its end.
pub type Stopped = (ErrorView, Seq<u8>);

/// What a parser makes of some bytes: a value and the bytes behind it, or why it stopped.
pub type Parsed<T> = Result<(T, Seq<u8>), Stopped>;

/// A parser that reads past the end of its input.
pub open spec fn cut_short<T>() -> Parsed<T> {
    Err((ErrorView::UnexpectedEof, Seq::empty()))
}

/// Relates what an executable reader returned, and what it left unread, to a [`Parsed`] value.
/// What was read is gone, also where it was wrong. Only where the input ends too early does the
/// reader stay where it was, to be tried again with more bytes.
pub open spec fn reads<T, U>(
    result: Result<T, Error>,
    view: spec_fn(T) -> U,
    before: Seq<u8>,
    after: Seq<u8>,
    parsed: Parsed<U>,
) -> bool {
    match (result, parsed) {
        (Ok(value), Ok((expected, rest))) => view(value) == expected && after == rest,
        (Err(error), Err((expected, rest))) => {
            &&& error@ == expected
            &&& after == if expected is UnexpectedEof {
                before
            } else {
                rest
            }
        },
        _ => false,
    }
}

/// Relates what a reader returned, and what it left unread, to a [`Parsed`] value. Where the
/// reader stands after an input that ends too early is left open.
pub open spec fn reads_or_stops<T, U>(
    result: Result<T, Error>,
    view: spec_fn(T) -> U,
    after: Seq<u8>,
    parsed: Parsed<U>,
) -> bool {
    match (result, parsed) {
        (Ok(value), Ok((expected, rest))) => view(value) == expected && after == rest,
        (Err(error), Err((expected, rest))) => {
            &&& error@ == expected
            &&& expected is UnexpectedEof || after == rest
        },
        _ => false,
    }
}

/// A cursor over bytes that are still to be read.
pub struct Reader<'a> {
    rest: &'a [u8],
}

impl<'a> View for Reader<'a> {
    type V = Seq<u8>;

    closed spec fn view(&self) -> Seq<u8> {
        self.rest@
    }
}

impl<'a> Reader<'a> {
    /// A reader positioned at the first of `bytes`.
    pub fn new(bytes: &'a [u8]) -> (reader: Reader<'a>)
        ensures
            reader@ == bytes@,
    {
        Reader { rest: bytes }
    }

    /// The bytes not read yet.
    pub fn remaining(&self) -> (rest: &'a [u8])
        ensures
            rest@ == self@,
    {
        self.rest
    }

    /// Puts the reader back to where `remaining` said it stood.
    pub(crate) fn rewind(&mut self, rest: &'a [u8])
        ensures
            final(self)@ == rest@,
    {
        self.rest = rest;
    }

    /// Takes the next `length` bytes.
    pub fn take(&mut self, length: usize) -> (result: Result<&'a [u8], Error>)
        ensures
            reads(result, |taken: &[u8]| taken@, old(self)@, final(self)@, take_parsed(
                old(self)@,
                length as nat,
            )),
    {
        if self.rest.len() < length {
            return Err(Error::UnexpectedEof);
        }
        let taken = slice_subrange(self.rest, 0, length);
        self.rest = slice_subrange(self.rest, length, self.rest.len());
        Ok(taken)
    }
}

pub open spec fn take_parsed(bytes: Seq<u8>, length: nat) -> Parsed<Seq<u8>> {
    if bytes.len() < length {
        cut_short()
    } else {
        Ok((bytes.take(length as int), bytes.skip(length as int)))
    }
}

/// The number that `bytes` write in base 256, the most significant digit first.
pub open spec fn be_value(bytes: Seq<u8>) -> nat
    decreases bytes.len(),
{
    if bytes.len() == 0 {
        0
    } else {
        be_value(bytes.drop_last()) * 256 + bytes.last() as nat
    }
}

/// The `length` digits of `value` in base 256, the most significant first.
pub open spec fn be_bytes(value: nat, length: nat) -> Seq<u8>
    decreases length,
{
    if length == 0 {
        Seq::empty()
    } else {
        be_bytes(value / 256, (length - 1) as nat).push((value % 256) as u8)
    }
}

/// How many bytes an integer takes, by the two topmost bits of its first byte.
pub open spec fn var_int_width(first: u8) -> nat {
    if first < 64 {
        1
    } else if first < 128 {
        2
    } else if first < 192 {
        4
    } else {
        8
    }
}

/// The first byte's two topmost bits for an integer of `length` bytes.
pub open spec fn var_int_tag(length: nat) -> nat {
    if length == 1 {
        0
    } else if length == 2 {
        64
    } else if length == 4 {
        128
    } else {
        192
    }
}

pub open spec fn is_var_int_length(length: nat) -> bool {
    length == 1 || length == 2 || length == 4 || length == 8
}

/// The fewest bytes that hold `value`.
pub open spec fn var_int_size(value: u64) -> nat {
    if value <= 63 {
        1
    } else if value <= 16_383 {
        2
    } else if value <= 1_073_741_823 {
        4
    } else {
        8
    }
}

/// `value` written in `length` bytes: its base-256 digits, with the length in the two topmost bits
/// of the first.
pub open spec fn var_int_bytes_with_len(value: u64, length: nat) -> Seq<u8> {
    let digits = be_bytes(value as nat, length);
    digits.update(0, (digits[0] + var_int_tag(length)) as u8)
}

/// `value` written in the fewest bytes.
#[verifier::opaque]
pub open spec fn var_int_bytes(value: u64) -> Seq<u8> {
    var_int_bytes_with_len(value, var_int_size(value))
}

/// The number written by a complete variable-length integer.
pub open spec fn var_int_value(bytes: Seq<u8>) -> nat {
    be_value(bytes.update(0, (bytes[0] % 64) as u8))
}

#[verifier::opaque]
pub open spec fn var_int_parsed(bytes: Seq<u8>) -> Parsed<u64> {
    if bytes.len() == 0 || bytes.len() < var_int_width(bytes[0]) {
        cut_short()
    } else {
        let width = var_int_width(bytes[0]) as int;
        Ok((var_int_value(bytes.take(width)) as u64, bytes.skip(width)))
    }
}

pub open spec fn pow256(exponent: nat) -> nat
    decreases exponent,
{
    if exponent == 0 {
        1
    } else {
        256 * pow256((exponent - 1) as nat)
    }
}

proof fn lemma_be_bytes(value: nat, length: nat)
    ensures
        be_bytes(value, length).len() == length,
        value < pow256(length) ==> be_value(be_bytes(value, length)) == value,
        length >= 1 && value < 64 * pow256((length - 1) as nat) ==> be_bytes(value, length)[0] < 64,
    decreases length,
{
    if length > 0 {
        lemma_be_bytes(value / 256, (length - 1) as nat);
        let digits = be_bytes(value, length);
        assert(digits.drop_last() =~= be_bytes(value / 256, (length - 1) as nat));
    }
}

/// The values that fit in a variable-length integer of a given length.
proof fn lemma_var_int_limits()
    ensures
        64 * pow256(0) == 64,
        64 * pow256(1) == 16_384,
        64 * pow256(3) == 1_073_741_824,
        64 * pow256(7) == 4_611_686_018_427_387_904,
        pow256(0) == 1,
{
    reveal_with_fuel(pow256, 9);
}

/// A variable-length integer reads back as the value that was written, whatever length it was
/// written in and whatever bytes follow it.
pub proof fn var_int_round_trip(value: u64, length: nat, rest: Seq<u8>)
    requires
        value <= MAX_VARINT,
        is_var_int_length(length),
        var_int_size(value) <= length,
    ensures
        var_int_bytes_with_len(value, length).len() == length,
        var_int_parsed(var_int_bytes_with_len(value, length) + rest) == Ok::<
            (u64, Seq<u8>),
            Stopped,
        >((value, rest)),
{
    reveal(var_int_parsed);
    lemma_var_int_limits();
    lemma_be_bytes(value as nat, length);
    let digits = be_bytes(value as nat, length);
    let written = var_int_bytes_with_len(value, length);
    let bytes = written + rest;
    assert(written.len() == length);
    assert(bytes.take(length as int) =~= written);
    assert(bytes.skip(length as int) =~= rest);
    assert(pow256(length) == 256 * pow256((length - 1) as nat));
    assert(digits[0] < 64);
    assert(bytes[0] == digits[0] + var_int_tag(length));
    assert(written.update(0, (written[0] % 64) as u8) =~= digits);
}

/// Reads a variable-length integer.
pub fn read_var_int(reader: &mut Reader) -> (result: Result<u64, Error>)
    ensures
        reads(result, |value: u64| value, old(reader)@, final(reader)@, var_int_parsed(
            old(reader)@,
        )),
{
    proof {
        reveal(var_int_parsed);
    }
    let bytes: &[u8] = reader.remaining();
    if bytes.len() == 0 {
        return Err(Error::UnexpectedEof);
    }
    let width: usize = if bytes[0] < 64 {
        1
    } else if bytes[0] < 128 {
        2
    } else if bytes[0] < 192 {
        4
    } else {
        8
    };
    let taken: &[u8] = reader.take(width)?;
    let mut value: u64 = (bytes[0] % 64) as u64;
    let ghost digits = taken@.update(0, (taken@[0] % 64) as u8);
    let mut i: usize = 1;
    proof {
        assert(digits.take(1).drop_last() =~= Seq::<u8>::empty());
        reveal_with_fuel(be_value, 2);
        lemma_var_int_limits();
    }
    while i < width
        invariant
            1 <= i <= width <= 8,
            taken@.len() == width,
            digits == taken@.update(0, (taken@[0] % 64) as u8),
            value == be_value(digits.take(i as int)),
            value < 64 * pow256((i - 1) as nat),
        decreases width - i,
    {
        proof {
            assert(digits.take(i + 1).drop_last() =~= digits.take(i as int));
            assert(pow256(i as nat) == 256 * pow256((i - 1) as nat));
            lemma_pow256_monotonic(i as nat, 7);
            lemma_var_int_limits();
        }
        value = value * 256 + taken[i] as u64;
        i = i + 1;
    }
    proof {
        assert(digits.take(width as int) =~= digits);
        assert(old(reader)@.take(width as int)[0] == old(reader)@[0]);
    }
    Ok(value)
}

proof fn lemma_pow256_monotonic(low: nat, high: nat)
    requires
        low <= high,
    ensures
        pow256(low) <= pow256(high),
    decreases high - low,
{
    if low < high {
        lemma_pow256_monotonic(low, (high - 1) as nat);
    }
}

/// Writes the `length` base-256 digits of `value` behind `out`, the most significant first.
fn append_digits(out: &mut Vec<u8>, value: u64, length: usize)
    ensures
        final(out)@ == old(out)@ + be_bytes(value as nat, length as nat),
    decreases length,
{
    if length > 0 {
        append_digits(out, value / 256, length - 1);
        out.push((value % 256) as u8);
        proof {
            assert(out@ =~= old(out)@ + be_bytes(value as nat, length as nat));
        }
    }
}

/// Appends `value` in exactly `length` bytes, which may be more than it needs.
pub fn append_var_int_with_len(out: &mut Vec<u8>, value: u64, length: usize)
    requires
        value <= MAX_VARINT,
        is_var_int_length(length as nat),
        var_int_size(value) <= length,
    ensures
        final(out)@ == old(out)@ + var_int_bytes_with_len(value, length as nat),
{
    let tag: u8 = match length {
        1 => 0,
        2 => 0x40,
        4 => 0x80,
        _ => 0xc0,
    };
    proof {
        lemma_var_int_limits();
        lemma_be_bytes(value as nat, length as nat);
    }
    let start: usize = out.len();
    append_digits(out, value, length);
    let first: u8 = out[start];
    out[start] = first + tag;
    proof {
        assert(out@ =~= old(out)@ + var_int_bytes_with_len(value, length as nat));
    }
}

/// Appends `value` in as few bytes as hold it.
pub fn append_var_int(out: &mut Vec<u8>, value: u64)
    requires
        value <= MAX_VARINT,
    ensures
        final(out)@ == old(out)@ + var_int_bytes(value),
{
    proof {
        reveal(var_int_bytes);
    }
    let length: usize = var_int_len(value);
    append_var_int_with_len(out, value, length);
}

/// How many bytes [`append_var_int`] writes for `value`.
pub fn var_int_len(value: u64) -> (length: usize)
    requires
        value <= MAX_VARINT,
    ensures
        length == var_int_size(value),
        length == var_int_bytes(value).len(),
{
    proof {
        reveal(var_int_bytes);
    }
    proof {
        var_int_round_trip(value, var_int_size(value), Seq::empty());
    }
    if value <= MAX_VARINT_1 {
        1
    } else if value <= MAX_VARINT_2 {
        2
    } else if value <= MAX_VARINT_4 {
        4
    } else {
        8
    }
}

proof fn lemma_be_value_bound(bytes: Seq<u8>)
    requires
        bytes.len() >= 1,
        bytes[0] < 64,
    ensures
        be_value(bytes) < 64 * pow256((bytes.len() - 1) as nat),
    decreases bytes.len(),
{
    if bytes.len() == 1 {
        reveal_with_fuel(be_value, 2);
        lemma_var_int_limits();
    } else {
        lemma_be_value_bound(bytes.drop_last());
        assert(pow256((bytes.len() - 1) as nat) == 256 * pow256((bytes.len() - 2) as nat));
    }
}

/// Whatever reads as a variable-length integer can be written as one again, and takes at least one
/// byte.
pub proof fn var_int_parsed_fits(bytes: Seq<u8>)
    ensures
        var_int_parsed(bytes) matches Ok((value, rest)) ==> value <= MAX_VARINT && rest.len()
            < bytes.len(),
        var_int_parsed(bytes) is Err ==> var_int_parsed(bytes) == cut_short::<u64>(),
{
    reveal(var_int_parsed);
    if var_int_parsed(bytes) is Ok {
        let width = var_int_width(bytes[0]);
        let digits = bytes.take(width as int).update(0, (bytes[0] % 64) as u8);
        lemma_be_value_bound(digits);
        lemma_var_int_limits();
        assert(bytes.take(width as int)[0] == bytes[0]);
    }
}

/// A byte string on the wire: its length, then its bytes.
#[verifier::opaque]
pub open spec fn ssh_bytes_encoding(bytes: Seq<u8>) -> Seq<u8> {
    var_int_bytes(bytes.len() as u64) + bytes
}

#[verifier::opaque]
pub open spec fn ssh_bytes_parsed(bytes: Seq<u8>) -> Parsed<Seq<u8>> {
    match var_int_parsed(bytes) {
        Err(error) => Err(error),
        Ok((length, rest)) => if length > usize::MAX {
            Err((ErrorView::InvalidLength(length), rest))
        } else {
            take_parsed(rest, length as nat)
        },
    }
}

/// A variable-length integer in its shortest form reads back as itself.
pub proof fn var_int_bytes_round_trip(value: u64, rest: Seq<u8>)
    requires
        value <= MAX_VARINT,
    ensures
        var_int_bytes(value).len() == var_int_size(value),
        var_int_parsed(var_int_bytes(value) + rest) == Ok::<(u64, Seq<u8>), Stopped>(
            (value, rest),
        ),
{
    reveal(var_int_bytes);
    var_int_round_trip(value, var_int_size(value), rest);
}

/// A byte string reads back as itself, whatever bytes follow it.
pub proof fn ssh_bytes_round_trip(bytes: Seq<u8>, rest: Seq<u8>)
    requires
        bytes.len() <= MAX_VARINT,
        bytes.len() <= usize::MAX,
    ensures
        ssh_bytes_encoding(bytes).len() == var_int_size(bytes.len() as u64) + bytes.len(),
        ssh_bytes_parsed(ssh_bytes_encoding(bytes) + rest) == Ok::<(Seq<u8>, Seq<u8>), Stopped>(
            (bytes, rest),
        ),
{
    reveal(ssh_bytes_encoding);
    reveal(ssh_bytes_parsed);
    var_int_bytes_round_trip(bytes.len() as u64, bytes + rest);
    assert(ssh_bytes_encoding(bytes) + rest =~= var_int_bytes(bytes.len() as u64) + (bytes + rest));
    assert((bytes + rest).take(bytes.len() as int) =~= bytes);
    assert((bytes + rest).skip(bytes.len() as int) =~= rest);
}

/// Whatever reads as a byte string can be written as one again.
pub proof fn ssh_bytes_parsed_fits(bytes: Seq<u8>)
    ensures
        ssh_bytes_parsed(bytes) matches Ok((value, rest)) ==> value.len() <= MAX_VARINT
            && value.len() <= usize::MAX && rest.len() < bytes.len(),
        ssh_bytes_parsed(bytes) matches Err((_, rest)) ==> rest.len() <= bytes.len(),
{
    reveal(ssh_bytes_parsed);
    var_int_parsed_fits(bytes);
}

/// Reads a byte string.
pub fn read_ssh_bytes(reader: &mut Reader) -> (result: Result<Vec<u8>, Error>)
    ensures
        reads(result, |value: Vec<u8>| value@, old(reader)@, final(reader)@, ssh_bytes_parsed(
            old(reader)@,
        )),
{
    proof {
        reveal(ssh_bytes_parsed);
    }
    let start: &[u8] = reader.remaining();
    let length: u64 = read_var_int(reader)?;
    if length > usize::MAX as u64 {
        return Err(Error::InvalidLength(length));
    }
    match reader.take(length as usize) {
        Ok(taken) => Ok(slice_to_vec(taken)),
        Err(error) => {
            reader.rewind(start);
            Err(error)
        },
    }
}

/// Appends a byte string.
pub fn append_ssh_bytes(out: &mut Vec<u8>, bytes: &[u8])
    requires
        bytes@.len() <= MAX_VARINT,
    ensures
        final(out)@ == old(out)@ + ssh_bytes_encoding(bytes@),
{
    proof {
        reveal(ssh_bytes_encoding);
    }
    append_var_int(out, bytes.len() as u64);
    out.extend_from_slice(bytes);
    proof {
        assert(out@ =~= old(out)@ + ssh_bytes_encoding(bytes@));
    }
}

/// How many bytes [`append_ssh_bytes`] writes for `bytes`.
pub fn ssh_string_len(bytes: &[u8]) -> (length: usize)
    requires
        bytes@.len() <= MAX_VARINT,
        ssh_bytes_encoding(bytes@).len() <= usize::MAX,
    ensures
        length == ssh_bytes_encoding(bytes@).len(),
{
    proof {
        reveal(ssh_bytes_encoding);
    }
    proof {
        var_int_bytes_round_trip(bytes@.len() as u64, Seq::empty());
    }
    var_int_len(bytes.len() as u64) + bytes.len()
}

pub open spec fn bool_encoding(value: bool) -> Seq<u8> {
    seq![if value { 1u8 } else { 0u8 }]
}

pub open spec fn bool_parsed(bytes: Seq<u8>) -> Parsed<bool> {
    if bytes.len() == 0 {
        cut_short()
    } else if bytes[0] > 1 {
        Err((ErrorView::InvalidBool(bytes[0]), bytes.skip(1)))
    } else {
        Ok((bytes[0] == 1, bytes.skip(1)))
    }
}

/// A boolean reads back as itself, whatever bytes follow it.
pub proof fn bool_round_trip(value: bool, rest: Seq<u8>)
    ensures
        bool_parsed(bool_encoding(value) + rest) == Ok::<(bool, Seq<u8>), Stopped>((value, rest)),
{
    assert((bool_encoding(value) + rest).skip(1) =~= rest);
}

/// Reads a boolean.
pub fn read_bool(reader: &mut Reader) -> (result: Result<bool, Error>)
    ensures
        reads(result, |value: bool| value, old(reader)@, final(reader)@, bool_parsed(old(reader)@)),
{
    match read_byte(reader)? {
        0 => Ok(false),
        1 => Ok(true),
        value => Err(Error::InvalidBool(value)),
    }
}

/// Appends a boolean.
pub fn write_bool(out: &mut Vec<u8>, value: bool)
    ensures
        final(out)@ == old(out)@ + bool_encoding(value),
{
    out.push(if value { 1 } else { 0 });
    proof {
        assert(out@ =~= old(out)@ + bool_encoding(value));
    }
}

pub fn min_u64(a: u64, b: u64) -> (smaller: u64)
    ensures
        smaller == if a <= b { a } else { b },
{
    if a <= b {
        a
    } else {
        b
    }
}

pub open spec fn byte_parsed(bytes: Seq<u8>) -> Parsed<u8> {
    if bytes.len() == 0 {
        cut_short()
    } else {
        Ok((bytes[0], bytes.skip(1)))
    }
}

/// Reads one byte.
pub fn read_byte(reader: &mut Reader) -> (result: Result<u8, Error>)
    ensures
        reads(result, |value: u8| value, old(reader)@, final(reader)@, byte_parsed(old(reader)@)),
{
    let taken: &[u8] = reader.take(1)?;
    Ok(taken[0])
}

/// Whether a parse of some bytes still stands when more bytes follow them: what was read stays, right
/// or wrong, and only an input that ended too early may read differently.
pub open spec fn stands<T>(parsed: Parsed<T>, extended: Parsed<T>, more: Seq<u8>) -> bool {
    match parsed {
        Ok((value, rest)) => extended == Ok::<(T, Seq<u8>), Stopped>((value, rest + more)),
        Err((ErrorView::UnexpectedEof, _)) => true,
        Err((error, rest)) => extended == Err::<(T, Seq<u8>), Stopped>((error, rest + more)),
    }
}

pub proof fn take_extends(bytes: Seq<u8>, length: nat, more: Seq<u8>)
    ensures
        stands(take_parsed(bytes, length), take_parsed(bytes + more, length), more),
{
    if length <= bytes.len() {
        assert((bytes + more).take(length as int) =~= bytes.take(length as int));
        assert((bytes + more).skip(length as int) =~= bytes.skip(length as int) + more);
    }
}

pub proof fn var_int_extends(bytes: Seq<u8>, more: Seq<u8>)
    ensures
        stands(var_int_parsed(bytes), var_int_parsed(bytes + more), more),
{
    reveal(var_int_parsed);
    if bytes.len() > 0 {
        take_extends(bytes, var_int_width(bytes[0]), more);
    }
}

pub proof fn ssh_bytes_extends(bytes: Seq<u8>, more: Seq<u8>)
    ensures
        stands(ssh_bytes_parsed(bytes), ssh_bytes_parsed(bytes + more), more),
{
    reveal(ssh_bytes_parsed);
    var_int_extends(bytes, more);
    if let Ok((length, rest)) = var_int_parsed(bytes) {
        take_extends(rest, length as nat, more);
    }
}

pub proof fn bool_extends(bytes: Seq<u8>, more: Seq<u8>)
    ensures
        stands(bool_parsed(bytes), bool_parsed(bytes + more), more),
{
    if bytes.len() > 0 {
        take_extends(bytes, 1, more);
    }
}

/// An integer is written in the fewest of one, two, four or eight bytes that hold it, the most
/// significant first, with the choice in the two topmost bits.
pub proof fn integers_are_laid_out(value: u64)
    ensures
        value < 64 ==> var_int_bytes(value) == seq![value as u8],
        64 <= value < 16_384 ==> var_int_bytes(value) == seq![
            (64 + value / 256) as u8,
            (value % 256) as u8,
        ],
        16_384 <= value < 1_073_741_824 ==> var_int_bytes(value) == seq![
            (128 + value / 16_777_216) as u8,
            (value / 65_536 % 256) as u8,
            (value / 256 % 256) as u8,
            (value % 256) as u8,
        ],
        1_073_741_824 <= value < 4_611_686_018_427_387_904 ==> var_int_bytes(value) == seq![
            (192 + value / 72_057_594_037_927_936) as u8,
            (value / 281_474_976_710_656 % 256) as u8,
            (value / 1_099_511_627_776 % 256) as u8,
            (value / 4_294_967_296 % 256) as u8,
            (value / 16_777_216 % 256) as u8,
            (value / 65_536 % 256) as u8,
            (value / 256 % 256) as u8,
            (value % 256) as u8,
        ],
{
    reveal(var_int_bytes);
    reveal_with_fuel(be_bytes, 9);
    let v = value as nat;
    if value < 64 {
        assert(var_int_bytes(value) =~= seq![value as u8]);
    } else if value < 16_384 {
        assert(var_int_bytes(value) =~= seq![(64 + value / 256) as u8, (value % 256) as u8]);
    } else if value < 1_073_741_824 {
        assert(be_bytes(v, 4) =~= seq![
            (v / 256 / 256 / 256 % 256) as u8,
            (v / 256 / 256 % 256) as u8,
            (v / 256 % 256) as u8,
            (v % 256) as u8,
        ]);
        assert(v / 256 / 256 == v / 65_536);
        assert(v / 256 / 256 / 256 == v / 16_777_216);
        assert(var_int_bytes(value) =~= seq![
            (128 + value / 16_777_216) as u8,
            (value / 65_536 % 256) as u8,
            (value / 256 % 256) as u8,
            (value % 256) as u8,
        ]);
    } else if value < 4_611_686_018_427_387_904 {
        let (a, b, c, d) = (v / 256, v / 256 / 256, v / 256 / 256 / 256, v / 256 / 256 / 256 / 256);
        let (e, f, g) = (d / 256, d / 256 / 256, d / 256 / 256 / 256);
        assert(be_bytes(v, 8) =~= seq![
            (g % 256) as u8,
            (f % 256) as u8,
            (e % 256) as u8,
            (d % 256) as u8,
            (c % 256) as u8,
            (b % 256) as u8,
            (a % 256) as u8,
            (v % 256) as u8,
        ]);
        assert(b == v / 65_536);
        assert(c == v / 16_777_216);
        assert(d == v / 4_294_967_296);
        assert(e == v / 1_099_511_627_776);
        assert(f == v / 281_474_976_710_656);
        assert(g == v / 72_057_594_037_927_936);
        assert(var_int_bytes(value) =~= seq![
            (192 + value / 72_057_594_037_927_936) as u8,
            (value / 281_474_976_710_656 % 256) as u8,
            (value / 1_099_511_627_776 % 256) as u8,
            (value / 4_294_967_296 % 256) as u8,
            (value / 16_777_216 % 256) as u8,
            (value / 65_536 % 256) as u8,
            (value / 256 % 256) as u8,
            (value % 256) as u8,
        ]);
    }
}

/// A byte string is written as its length and its bytes; a boolean as a one or a zero.
pub proof fn byte_strings_and_booleans_are_laid_out(bytes: Seq<u8>)
    requires
        bytes.len() <= MAX_VARINT,
    ensures
        ssh_bytes_encoding(bytes) == var_int_bytes(bytes.len() as u64) + bytes,
        bytes.len() < 64 ==> ssh_bytes_encoding(bytes) == seq![bytes.len() as u8] + bytes,
        bool_encoding(true) == seq![1u8],
        bool_encoding(false) == seq![0u8],
{
    reveal(ssh_bytes_encoding);
    integers_are_laid_out(bytes.len() as u64);
}

/// A byte string whose bytes have not all come ends too early, and so do an integer and a boolean
/// of which nothing has come; a byte that is neither zero nor one is no boolean, and is gone.
pub proof fn input_that_ends_too_early_is_told(length: u64, rest: Seq<u8>, byte: u8)
    requires
        length <= MAX_VARINT,
        rest.len() < length <= usize::MAX,
        byte > 1,
    ensures
        ssh_bytes_parsed(var_int_bytes(length) + rest) == cut_short::<Seq<u8>>(),
        var_int_parsed(Seq::empty()) == cut_short::<u64>(),
        bool_parsed(Seq::empty()) == cut_short::<bool>(),
        bool_parsed(seq![byte] + rest) == Err::<(bool, Seq<u8>), Stopped>(
            (ErrorView::InvalidBool(byte), rest),
        ),
{
    reveal(ssh_bytes_parsed);
    reveal(var_int_parsed);
    var_int_bytes_round_trip(length, rest);
    assert((seq![byte] + rest).skip(1) =~= rest);
}

/// The first byte is read, and the others are left.
pub proof fn bytes_are_read_one_by_one(byte: u8, rest: Seq<u8>)
    ensures
        byte_parsed(seq![byte] + rest) == Ok::<(u8, Seq<u8>), Stopped>((byte, rest)),
        byte_parsed(Seq::empty()) == Err::<(u8, Seq<u8>), Stopped>(
            (ErrorView::UnexpectedEof, Seq::empty()),
        ),
{
    assert((seq![byte] + rest).skip(1) =~= rest);
}

} // verus!
