use base64::Engine;
use base64_bytes::codec::{decode, encode, Encoded};
use rand::RngCore;
use serde::de::{Deserializer, Error, IgnoredAny, MapAccess, SeqAccess, Visitor};
use serde::ser::{SerializeStruct, Serializer};
use serde::{Deserialize, Serialize};

#[derive(Debug, PartialEq, Eq)]
struct Test {
    bytes: Vec<u8>,
}

struct BytesRef<'a>(&'a Vec<u8>);

impl<'a> Serialize for BytesRef<'a> {
    fn serialize<S: Serializer>(&self, s: S) -> Result<S::Ok, S::Error> {
        match encode(self.0, s.is_human_readable()) {
            Encoded::Text(t) => t.serialize(s),
            Encoded::Bytes(b) => b.serialize(s),
        }
    }
}

struct BytesOwned(Vec<u8>);

impl<'de> Deserialize<'de> for BytesOwned {
    fn deserialize<D: Deserializer<'de>>(d: D) -> Result<Self, D::Error> {
        let rep = if d.is_human_readable() {
            Encoded::Text(String::deserialize(d)?)
        } else {
            Encoded::Bytes(Vec::<u8>::deserialize(d)?)
        };
        match decode(rep) {
            Ok(v) => Ok(BytesOwned(v)),
            Err(e) => Err(D::Error::custom(e.message())),
        }
    }
}

impl Serialize for Test {
    fn serialize<S: Serializer>(&self, s: S) -> Result<S::Ok, S::Error> {
        let mut st = s.serialize_struct("Test", 1)?;
        st.serialize_field("bytes", &BytesRef(&self.bytes))?;
        st.end()
    }
}

struct TestVisitor;

impl<'de> Visitor<'de> for TestVisitor {
    type Value = Test;

    fn expecting(&self, f: &mut std::fmt::Formatter) -> std::fmt::Result {
        f.write_str("struct Test")
    }

    fn visit_seq<A: SeqAccess<'de>>(self, mut seq: A) -> Result<Test, A::Error> {
        let bytes: BytesOwned = seq
            .next_element()?
            .ok_or_else(|| A::Error::invalid_length(0, &self))?;
        Ok(Test { bytes: bytes.0 })
    }

    fn visit_map<A: MapAccess<'de>>(self, mut map: A) -> Result<Test, A::Error> {
        let mut bytes: Option<BytesOwned> = None;
        while let Some(key) = map.next_key::<String>()? {
            if key == "bytes" {
                bytes = Some(map.next_value()?);
            } else {
                let _: IgnoredAny = map.next_value()?;
            }
        }
        let bytes = bytes.ok_or_else(|| A::Error::missing_field("bytes"))?;
        Ok(Test { bytes: bytes.0 })
    }
}

impl<'de> Deserialize<'de> for Test {
    fn deserialize<D: Deserializer<'de>>(d: D) -> Result<Self, D::Error> {
        d.deserialize_struct("Test", &["bytes"], TestVisitor)
    }
}

#[test]
fn test_bytes_serde() {
    let mut rng = rand::thread_rng();

    for len in [0, 1, 10, 1000] {
        let mut t = Test {
            bytes: vec![0; len],
        };
        rng.fill_bytes(&mut t.bytes);

        // The binary serialization should be highly efficient: just the length followed by the
        // raw bytes.
        let binary = bincode::serialize(&t).unwrap();
        assert_eq!(binary[..8], (len as u64).to_le_bytes());
        assert_eq!(t.bytes, binary[8..]);
        // Check deserialization.
        assert_eq!(t, bincode::deserialize::<Test>(&binary).unwrap());

        // The JSON serialization should return a base 64 string.
        let json = serde_json::to_value(&t).unwrap();
        assert_eq!(
            json["bytes"].as_str().unwrap(),
            base64::engine::general_purpose::STANDARD.encode(&t.bytes)
        );
        // Check deserialization.
        assert_eq!(t, serde_json::from_value::<Test>(json).unwrap());
    }
}
