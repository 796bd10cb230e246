# vector_state

A verified library for the state wire format and the logic of its derive.

- `src/leb.rs`: the model of the base-128 varint format (lengths, groups,
  zigzag) and its lemmas.
- `src/size.rs`: `size_32` and `size_64`, the encoded sizes of 32- and
  64-bit values.
- `src/varint.rs`: the `Varint` trait, the byte-at-a-time `VarintDecoder`,
  and reading a varint from a byte slice.
- `src/ints.rs`: `Varint` for `u8` to `u64` and, through zigzag, `i8` to `i64`.
- `src/laws.rs`: decoding gives back what was encoded, for every unsigned
  value and for signed values in the lower half of their magnitude range
  (`[-2^(W-2), 2^(W-2))` for width `W`; outside it the signed reader
  shifts the raw bits as a negative number); `size` is the encoded length
  of unsigned values (of signed values it counts the two's complement
  bits, not the zigzag encoding).
- `src/field.rs`: reading the `#[state(...)]` attributes of a field and the
  code text that initializes, sizes and serializes it. Whether a default
  lexes is the answer of the lexer in use, an input to `parse_lexed`.
- `src/derive.rs`: the shape checks of a derived item and the constant that
  wraps the generated impls.
- `src/text.rs`: decimal text, character comparison and `u16` parsing.
- `app/`: varints over `std::io` streams, and conversions from `syn` items
  and to `proc_macro2` tokens.
