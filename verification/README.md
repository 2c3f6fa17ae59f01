# stun_proto

Readers for STUN messages and the decision logic of a STUN server prober,
written in Verus with their contracts proved.

- `src/message.rs`: `MsgReader` and the header fields (type, length, magic
  cookie, transaction id, attributes), method and class decoding.
- `src/attribute.rs`: the attribute walk (`RawAttributeIterator`,
  `AttributeIterator`) over `parse_attributes`, and `GenericAttribute`.
- `src/rfc3489.rs`: `Rfc3489Iterator`, which hands out a typed reader for each
  attribute of a known type.
- `src/vals.rs`: value readers for addresses, XOR-ed addresses and text.
- `src/realm.rs`: `RealmAttributeReader`.
- `src/health.rs`: how a probe, a server and a whole run are judged.
- `app/main.rs`: the prober itself (DNS, UDP, logging), built on the library.
