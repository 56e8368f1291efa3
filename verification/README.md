# isobmff

Reading and writing the structures of the ISO base media file format
(ISO/IEC 14496-12) and of the MPEG-4 object descriptors (ISO/IEC 14496-1): whole
files, the container boxes of a movie and of its fragments, and the leaf boxes
within them. Each parser, writer and size function in `src/` is proved in Verus
against a byte-level model, with the laws that a written value reads back and that
its size is the number of bytes written.

## Layout

- `src/codec.rs`, `src/wire.rs`, `src/versioned.rs`: big-endian integers, the `Wire`
  contract (parse, serialize, size and their laws) and list combinators.
- `src/header.rs`, `src/frame.rs`: box headers and the `BoxBody` contract for whole
  boxes, with the law that reading a written box gives it back.
- `src/children.rs`: boxes nested in the payload of a container box;
  `src/nested.rs`: writing and sizing contained boxes of any type.
- `src/file.rs`: a whole file (`IsobmffFile`): its top-level boxes, read and written.
- `src/boxes/`: the boxes, one module per group.
- `src/common_types.rs`, `src/string_deserializer.rs`: strings, languages, base64 text.
- `src/object_description.rs`: MPEG-4 descriptors and their variable-length sizes;
  `src/decoder_config.rs`, `src/sl_config.rs`, `src/es_descriptor.rs`: the decoder
  configuration, sync layer configuration and elementary stream descriptors.
- `src/security.rs`, `src/derive_options.rs`: the security scheme types and the
  options of the box derivation.
- `tests/`: tests that run the compiled library.
- `app/`: serde forms of the security schemes and uuid conversions, which need
  outside derives.

## Not covered

These boxes are not modelled; a container that meets one keeps it as an
`UnknownBox` (or, in a sample description, as the box it is):

- the metadata, text and subtitle sample entries (`metx`, `mett`, `urim`, `tx3g`,
  `stpp`, `sbtt`, `wvtt`), and the Opus and MPEG-4 audio sample entries;
- the channel layout (`chnl`) and down-mix instructions (`dmix`) boxes;
- the OAuth2 flow types and the `SecurityScheme` and `SecurityRequirement` types.
