use vstd::prelude::*;
use vstd::string::StringSliceAdditionalSpecFns;
use vstd::utf8::{decode_utf8, encode_utf8, valid_utf8};
use crate::bencode::encoder::{encode, encode_spec};
use crate::bencode::parser::{parse_at, parse_value_spec, BencodeError};
use crate::bencode::value::{
    dict_get, dict_insert, entry_views, insert_entry, lemma_view_of_children, Bencode,
    BencodeValue,
};
use crate::utils::bytes::{copy_range, extend_bytes, string_from_utf8};

verus! {

/// The name under which the metadata extension is negotiated.
pub const METADATA_EXTENSION_NAME: &'static str = "ut_metadata";

/// The id that `default_extensions` assigns to the metadata extension.
pub const METADATA_EXTENSION_ID: u8 = 17;

/// Key of the extension table in an extension handshake.
pub const KEY_EXTENSIONS: &'static str = "m";

/// Key of the metadata size in an extension handshake.
pub const KEY_METADATA_SIZE: &'static str = "metadata_size";

/// Key of the client name in an extension handshake.
pub const KEY_CLIENT_NAME: &'static str = "client_name";

/// Why an extension handshake could not be written or read.
#[derive(Debug, Clone, Copy, PartialEq, Eq, Structural)]
pub enum ExtensionError {
    /// The payload does not start with a bencoded value.
    Bencode(BencodeError),
    /// The payload is not a dictionary.
    NotADictionary,
    /// The payload has no dictionary under `m`.
    MissingExtensions,
    /// An entry of `m` has a name that is not UTF-8 or an id that is not a
    /// number from 0 to 255.
    InvalidExtensions,
    /// `metadata_size` is not a number from 0 up, or is too large to be
    /// written.
    InvalidMetadataSize,
    /// `client_name` is not a byte string of valid UTF-8.
    InvalidClientName,
}

/// The payload of an extension handshake: the ids that a peer assigns to
/// the extensions it supports, and what else it tells of itself.
#[derive(Debug, Clone, PartialEq, Eq)]
pub struct ExtensionHandshakePayload {
    /// Extension names with the ids assigned to them.
    pub extensions: Vec<(String, u8)>,
    /// The size of the info dictionary, if the peer tells it.
    pub metadata_size: Option<u64>,
    /// The name of the peer's client, if it tells it.
    pub client_name: Option<String>,
}

/// An extension message: the id of the extension, as the receiver assigned
/// it, and the extension's payload.
pub struct ExtensionMessage {
    pub msg_id: u8,
    pub payload: Vec<u8>,
}

/// An `ExtensionHandshakePayload` as a mathematical value.
pub struct PayloadView {
    pub extensions: Seq<(Seq<char>, u8)>,
    pub metadata_size: Option<u64>,
    pub client_name: Option<Seq<char>>,
}

/// The views of a list of named ids.
pub open spec fn extension_views(extensions: Seq<(String, u8)>) -> Seq<(Seq<char>, u8)> {
    Seq::new(extensions.len(), |i: int| (extensions[i].0@, extensions[i].1))
}

impl View for ExtensionHandshakePayload {
    type V = PayloadView;

    open spec fn view(&self) -> PayloadView {
        PayloadView {
            extensions: extension_views(self.extensions@),
            metadata_size: self.metadata_size,
            client_name: match self.client_name {
                Some(name) => Some(name@),
                None => None,
            },
        }
    }
}

/// The id of the first extension with the given name among those from
/// position `from` on.
pub open spec fn extension_id(extensions: Seq<(Seq<char>, u8)>, name: Seq<char>, from: int) -> Option<
    u8,
>
    decreases extensions.len() - from,
{
    if from < 0 || from >= extensions.len() {
        None
    } else if extensions[from].0 == name {
        Some(extensions[from].1)
    } else {
        extension_id(extensions, name, from + 1)
    }
}

/// The dictionary that the first `n` named ids make: each name, in UTF-8,
/// with its id; of equal names the later one stays.
pub open spec fn extension_dict(extensions: Seq<(Seq<char>, u8)>, n: int) -> Seq<
    (Seq<u8>, Bencode),
>
    decreases n,
{
    if n <= 0 {
        Seq::empty()
    } else {
        dict_insert(
            extension_dict(extensions, n - 1),
            encode_utf8(extensions[n - 1].0),
            Bencode::Integer(extensions[n - 1].1 as i64),
        )
    }
}

/// The value that an extension handshake is written as: the ids under `m`,
/// and the metadata size and the client name where there are any.
pub open spec fn payload_bencode(payload: PayloadView) -> Bencode {
    let base = seq![
        (
            KEY_EXTENSIONS.spec_bytes(),
            Bencode::Dict(extension_dict(payload.extensions, payload.extensions.len() as int)),
        ),
    ];
    let sized = match payload.metadata_size {
        Some(size) => dict_insert(
            base,
            KEY_METADATA_SIZE.spec_bytes(),
            Bencode::Integer(size as i64),
        ),
        None => base,
    };
    let named = match payload.client_name {
        Some(name) => dict_insert(
            sized,
            KEY_CLIENT_NAME.spec_bytes(),
            Bencode::Bytes(encode_utf8(name)),
        ),
        None => sized,
    };
    Bencode::Dict(named)
}

/// The named ids that the first `n` entries of an extension table give, if
/// every name is UTF-8 and every id a number from 0 to 255.
pub open spec fn extension_list(entries: Seq<(Seq<u8>, Bencode)>, n: int) -> Option<
    Seq<(Seq<char>, u8)>,
>
    decreases n,
{
    if n <= 0 {
        Some(Seq::empty())
    } else {
        match extension_list(entries, n - 1) {
            None => None,
            Some(list) => match entries[n - 1].1 {
                Bencode::Integer(id) => if 0 <= id <= 255 && valid_utf8(entries[n - 1].0) {
                    Some(list.push((decode_utf8(entries[n - 1].0), id as u8)))
                } else {
                    None
                },
                _ => None,
            },
        }
    }
}

/// The metadata size that a handshake dictionary tells: none if there is no
/// entry, and an error if the entry is not a number from 0 up.
pub open spec fn metadata_size_of(entries: Seq<(Seq<u8>, Bencode)>) -> Result<
    Option<u64>,
    ExtensionError,
> {
    match dict_get(entries, KEY_METADATA_SIZE.spec_bytes()) {
        None => Ok(None),
        Some(Bencode::Integer(n)) => if n >= 0 {
            Ok(Some(n as u64))
        } else {
            Err(ExtensionError::InvalidMetadataSize)
        },
        Some(_) => Err(ExtensionError::InvalidMetadataSize),
    }
}

/// The client name that a handshake dictionary tells: none if there is no
/// entry, and an error if the entry is not a byte string of valid UTF-8.
pub open spec fn client_name_of(entries: Seq<(Seq<u8>, Bencode)>) -> Result<
    Option<Seq<char>>,
    ExtensionError,
> {
    match dict_get(entries, KEY_CLIENT_NAME.spec_bytes()) {
        None => Ok(None),
        Some(Bencode::Bytes(name)) => if valid_utf8(name) {
            Ok(Some(decode_utf8(name)))
        } else {
            Err(ExtensionError::InvalidClientName)
        },
        Some(_) => Err(ExtensionError::InvalidClientName),
    }
}

/// The extension handshake that a bencoded value holds.
pub open spec fn payload_of(value: Bencode) -> Result<PayloadView, ExtensionError> {
    match value {
        Bencode::Dict(entries) => match dict_get(entries, KEY_EXTENSIONS.spec_bytes()) {
            Some(Bencode::Dict(table)) => match extension_list(table, table.len() as int) {
                None => Err(ExtensionError::InvalidExtensions),
                Some(extensions) => match metadata_size_of(entries) {
                    Err(e) => Err(e),
                    Ok(metadata_size) => match client_name_of(entries) {
                        Err(e) => Err(e),
                        Ok(client_name) => Ok(
                            PayloadView { extensions, metadata_size, client_name },
                        ),
                    },
                },
            },
            _ => Err(ExtensionError::MissingExtensions),
        },
        _ => Err(ExtensionError::NotADictionary),
    }
}

/// The extension handshake that a payload holds: that of the bencoded value
/// that the payload starts with. What follows the value is not read.
pub open spec fn decode_payload_spec(bytes: Seq<u8>) -> Result<PayloadView, ExtensionError> {
    match parse_value_spec(bytes, 0) {
        Err(e) => Err(ExtensionError::Bencode(e)),
        Ok((value, _)) => payload_of(value),
    }
}

fn key_bytes(key: &str) -> (bytes: Vec<u8>)
    ensures
        bytes@ == key.spec_bytes(),
{
    let raw = key.as_bytes();
    let bytes = copy_range(raw, 0, raw.len());
    assert(bytes@ =~= raw@);
    bytes
}

fn read_extensions(table: &Vec<(Vec<u8>, BencodeValue)>) -> (list: Option<Vec<(String, u8)>>)
    ensures
        match list {
            Some(l) => extension_list(entry_views(table@), table@.len() as int) == Some(
                extension_views(l@),
            ),
            None => extension_list(entry_views(table@), table@.len() as int) is None,
        },
{
    let ghost views = entry_views(table@);
    let mut list: Vec<(String, u8)> = Vec::new();
    let mut i: usize = 0;
    assert(extension_views(list@) =~= Seq::empty());
    while i < table.len()
        invariant
            i <= table@.len(),
            views == entry_views(table@),
            extension_list(views, i as int) == Some(extension_views(list@)),
        decreases table@.len() - i,
    {
        assert(views[i as int] == (table@[i as int].0@, table@[i as int].1@));
        let id: u8 = match table[i].1.as_integer() {
            Some(n) => {
                if n < 0 || n > 255 {
                    proof {
                        lemma_extension_list_stays_none(views, i as int + 1, table@.len() as int);
                    }
                    return None;
                }
                n as u8
            },
            None => {
                proof {
                    lemma_extension_list_stays_none(views, i as int + 1, table@.len() as int);
                }
                return None;
            },
        };
        let name: String = match string_from_utf8(table[i].0.clone()) {
            Some(name) => name,
            None => {
                proof {
                    lemma_extension_list_stays_none(views, i as int + 1, table@.len() as int);
                }
                return None;
            },
        };
        let ghost before = extension_views(list@);
        list.push((name, id));
        assert(extension_views(list@) =~= before.push((name@, id)));
        i += 1;
    }
    Some(list)
}

proof fn lemma_extension_list_stays_none(entries: Seq<(Seq<u8>, Bencode)>, n: int, m: int)
    requires
        n <= m,
        extension_list(entries, n) is None,
    ensures
        extension_list(entries, m) is None,
    decreases m - n,
{
    if n < m {
        lemma_extension_list_stays_none(entries, n, m - 1);
    }
}

impl ExtensionHandshakePayload {
    /// A payload that names no extension and tells nothing.
    pub fn new() -> (payload: Self)
        ensures
            payload@ == (PayloadView {
                extensions: Seq::empty(),
                metadata_size: None,
                client_name: None,
            }),
    {
        let payload = Self { extensions: Vec::new(), metadata_size: None, client_name: None };
        assert(payload@.extensions =~= Seq::empty());
        payload
    }

    /// A payload that assigns `METADATA_EXTENSION_ID` to the metadata
    /// extension and tells nothing else.
    pub fn default_extensions() -> (payload: ExtensionHandshakePayload)
        ensures
            payload@ == (PayloadView {
                extensions: seq![(METADATA_EXTENSION_NAME@, METADATA_EXTENSION_ID)],
                metadata_size: None,
                client_name: None,
            }),
    {
        Self::with_metadata_id(METADATA_EXTENSION_ID)
    }

    /// A payload that assigns `id` to the metadata extension and tells
    /// nothing else.
    pub fn with_metadata_id(id: u8) -> (payload: ExtensionHandshakePayload)
        ensures
            payload@ == (PayloadView {
                extensions: seq![(METADATA_EXTENSION_NAME@, id)],
                metadata_size: None,
                client_name: None,
            }),
    {
        let mut extensions: Vec<(String, u8)> = Vec::new();
        extensions.push((METADATA_EXTENSION_NAME.to_owned(), id));
        let payload = ExtensionHandshakePayload {
            extensions,
            metadata_size: None,
            client_name: None,
        };
        assert(payload@.extensions =~= seq![(METADATA_EXTENSION_NAME@, id)]);
        payload
    }

    /// Writes the payload in canonical bencode.
    ///
    /// Fails, with `InvalidMetadataSize`, exactly when the metadata size is
    /// above the largest bencoded integer.
    pub fn encode(&self) -> (bytes: Result<Vec<u8>, ExtensionError>)
        ensures
            match bytes {
                Ok(b) => (self.metadata_size matches Some(n) ==> n <= i64::MAX) && b@
                    == encode_spec(payload_bencode(self@)),
                Err(e) => e == ExtensionError::InvalidMetadataSize && (
                self.metadata_size matches Some(n) && n > i64::MAX),
            },
    {
        let ghost views = extension_views(self.extensions@);
        let mut table: Vec<(Vec<u8>, BencodeValue)> = Vec::new();
        let mut i: usize = 0;
        assert(entry_views(table@) =~= Seq::empty());
        while i < self.extensions.len()
            invariant
                i <= self.extensions@.len(),
                views == extension_views(self.extensions@),
                entry_views(table@) == extension_dict(views, i as int),
            decreases self.extensions@.len() - i,
        {
            assert(views[i as int] == (self.extensions@[i as int].0@, self.extensions@[i as int].1));
            let name = key_bytes(self.extensions[i].0.as_str());
            insert_entry(&mut table, name, BencodeValue::Integer(self.extensions[i].1 as i64));
            i += 1;
        }
        let table_value = BencodeValue::Dict(table);
        proof {
            lemma_view_of_children(table_value);
        }
        let mut entries: Vec<(Vec<u8>, BencodeValue)> = Vec::new();
        entries.push((key_bytes(KEY_EXTENSIONS), table_value));
        assert(entry_views(entries@) =~= seq![(KEY_EXTENSIONS.spec_bytes(), table_value@)]);
        match self.metadata_size {
            Some(size) => {
                if size > i64::MAX as u64 {
                    return Err(ExtensionError::InvalidMetadataSize);
                }
                insert_entry(
                    &mut entries,
                    key_bytes(KEY_METADATA_SIZE),
                    BencodeValue::Integer(size as i64),
                );
            },
            None => {},
        }
        match &self.client_name {
            Some(name) => {
                insert_entry(
                    &mut entries,
                    key_bytes(KEY_CLIENT_NAME),
                    BencodeValue::Bytes(key_bytes(name.as_str())),
                );
            },
            None => {},
        }
        let value = BencodeValue::Dict(entries);
        proof {
            lemma_view_of_children(value);
        }
        Ok(encode(&value))
    }

    /// Reads the payload of an extension handshake: the bencoded dictionary
    /// that the bytes start with.
    pub fn decode(bytes: &[u8]) -> (payload: Result<Self, ExtensionError>)
        ensures
            match payload {
                Ok(p) => decode_payload_spec(bytes@) == Ok::<PayloadView, ExtensionError>(p@),
                Err(e) => decode_payload_spec(bytes@) == Err::<PayloadView, ExtensionError>(e),
            },
    {
        let value: BencodeValue = match parse_at(bytes, 0) {
            Err(e) => {
                return Err(ExtensionError::Bencode(e));
            },
            Ok((value, _)) => value,
        };
        proof {
            lemma_view_of_children(value);
        }
        match &value {
            BencodeValue::Dict(_) => {},
            _ => {
                return Err(ExtensionError::NotADictionary);
            },
        }
        let extensions: Vec<(String, u8)> = match value.get(KEY_EXTENSIONS.as_bytes()) {
            Some(BencodeValue::Dict(table)) => {
                proof {
                    lemma_view_of_children(BencodeValue::Dict(*table));
                }
                match read_extensions(table) {
                    Some(list) => list,
                    None => {
                        return Err(ExtensionError::InvalidExtensions);
                    },
                }
            },
            _ => {
                return Err(ExtensionError::MissingExtensions);
            },
        };
        let metadata_size: Option<u64> = match value.get(KEY_METADATA_SIZE.as_bytes()) {
            None => None,
            Some(BencodeValue::Integer(n)) => {
                if *n >= 0 {
                    Some(*n as u64)
                } else {
                    return Err(ExtensionError::InvalidMetadataSize);
                }
            },
            Some(_) => {
                return Err(ExtensionError::InvalidMetadataSize);
            },
        };
        let client_name: Option<String> = match value.get(KEY_CLIENT_NAME.as_bytes()) {
            None => None,
            Some(BencodeValue::Bytes(name)) => match string_from_utf8(name.clone()) {
                Some(text) => Some(text),
                None => {
                    return Err(ExtensionError::InvalidClientName);
                },
            },
            Some(_) => {
                return Err(ExtensionError::InvalidClientName);
            },
        };
        Ok(ExtensionHandshakePayload { extensions, metadata_size, client_name })
    }

    /// The id assigned to the extension of the given name: that of the
    /// first entry with the name.
    pub fn get_extension_id(&self, name: &str) -> (id: Option<u8>)
        ensures
            id == extension_id(self@.extensions, name@, 0),
    {
        let wanted: String = name.to_owned();
        let ghost views = extension_views(self.extensions@);
        let mut i: usize = 0;
        while i < self.extensions.len()
            invariant
                i <= self.extensions@.len(),
                wanted@ == name@,
                views == extension_views(self.extensions@),
                extension_id(views, name@, 0) == extension_id(views, name@, i as int),
            decreases self.extensions@.len() - i,
        {
            assert(views[i as int] == (self.extensions@[i as int].0@, self.extensions@[i as int].1));
            if self.extensions[i].0 == wanted {
                return Some(self.extensions[i].1);
            }
            i += 1;
        }
        None
    }

    /// The id assigned to the metadata extension.
    pub fn get_metadata_extension_id(&self) -> (id: Option<u8>)
        ensures
            id == extension_id(self@.extensions, METADATA_EXTENSION_NAME@, 0),
    {
        self.get_extension_id(METADATA_EXTENSION_NAME)
    }
}

impl ExtensionMessage {
    /// The message as the payload of an extended message: the id, then the
    /// extension's payload.
    pub fn to_bytes(&self) -> (bytes: Vec<u8>)
        ensures
            bytes@ == seq![self.msg_id] + self.payload@,
    {
        let mut buf: Vec<u8> = Vec::new();
        buf.push(self.msg_id);
        extend_bytes(&mut buf, self.payload.as_slice());
        buf
    }
}

} // verus!
