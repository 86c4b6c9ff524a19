//! The typed payload records, and the parsers that validate one payload
//! entry against one record's schema.

use crate::document::{models, Dictionary, DocumentNode, Node, NodeKind};
use crate::encoding::{
    base64_bytes, base64_len, base64_text, encode_base64, lemma_base64_round_trip,
};
use vstd::prelude::*;

verus! {

/// Why a payload entry gave no record.
#[derive(Clone, Debug, PartialEq, Eq)]
pub enum RecordError {
    /// The entry names another payload type than the parser's.
    NotApplicable,
    /// A required field is absent.
    MissingField(String),
    /// A field is present, but is not a node of the expected kind.
    TypeMismatch(String, NodeKind),
    /// A binary field is too long for its text form to fit in a string.
    ContentTooLong(String),
}

/// The mathematical value of a `RecordError`.
pub enum RecordFault {
    NotApplicable,
    MissingField(Seq<char>),
    TypeMismatch(Seq<char>, NodeKind),
    ContentTooLong(Seq<char>),
}

impl View for RecordError {
    type V = RecordFault;

    open spec fn view(&self) -> RecordFault {
        match self {
            RecordError::NotApplicable => RecordFault::NotApplicable,
            RecordError::MissingField(name) => RecordFault::MissingField(name@),
            RecordError::TypeMismatch(name, kind) => RecordFault::TypeMismatch(name@, *kind),
            RecordError::ContentTooLong(name) => RecordFault::ContentTooLong(name@),
        }
    }
}

/// A Wi-Fi network definition.
#[derive(Clone, Debug, PartialEq, Eq)]
pub struct WifiProfile {
    pub certificate_anchor_uuids: Vec<String>,
    pub trusted_server_names: Vec<String>,
    pub user_name: String,
    pub user_password: String,
    pub ssid: String,
    pub inner_auth_method: String,
}

/// The mathematical value of a `WifiProfile`.
pub struct WifiProfileModel {
    pub certificate_anchor_uuids: Seq<Seq<char>>,
    pub trusted_server_names: Seq<Seq<char>>,
    pub user_name: Seq<char>,
    pub user_password: Seq<char>,
    pub ssid: Seq<char>,
    pub inner_auth_method: Seq<char>,
}

impl View for WifiProfile {
    type V = WifiProfileModel;

    open spec fn view(&self) -> WifiProfileModel {
        WifiProfileModel {
            certificate_anchor_uuids: self.certificate_anchor_uuids.deep_view(),
            trusted_server_names: self.trusted_server_names.deep_view(),
            user_name: self.user_name@,
            user_password: self.user_password@,
            ssid: self.ssid@,
            inner_auth_method: self.inner_auth_method@,
        }
    }
}

/// A trusted-certificate anchor. The certificate's bytes are held as
/// base64 text.
#[derive(Clone, Debug, PartialEq, Eq)]
pub struct TlsCertificateProfile {
    pub uuid: String,
    pub content_base64: String,
}

/// The mathematical value of a `TlsCertificateProfile`.
pub struct TlsCertificateModel {
    pub uuid: Seq<char>,
    pub content_base64: Seq<char>,
}

impl View for TlsCertificateProfile {
    type V = TlsCertificateModel;

    open spec fn view(&self) -> TlsCertificateModel {
        TlsCertificateModel { uuid: self.uuid@, content_base64: self.content_base64@ }
    }
}

/// The node that a required field of kind `kind` holds.
pub open spec fn field(dict: Map<Seq<char>, Node>, key: Seq<char>, kind: NodeKind) -> Result<
    Node,
    RecordFault,
> {
    if !dict.contains_key(key) {
        Err(RecordFault::MissingField(key))
    } else if dict[key].kind() != kind {
        Err(RecordFault::TypeMismatch(key, kind))
    } else {
        Ok(dict[key])
    }
}

/// The text that a required string field holds.
pub open spec fn string_field(dict: Map<Seq<char>, Node>, key: Seq<char>) -> Result<
    Seq<char>,
    RecordFault,
> {
    match field(dict, key, NodeKind::String) {
        Ok(node) => Ok(node->String_0),
        Err(fault) => Err(fault),
    }
}

/// The bindings that a required dictionary field holds.
pub open spec fn dictionary_field(dict: Map<Seq<char>, Node>, key: Seq<char>) -> Result<
    Map<Seq<char>, Node>,
    RecordFault,
> {
    match field(dict, key, NodeKind::Dictionary) {
        Ok(node) => Ok(node->Dictionary_0),
        Err(fault) => Err(fault),
    }
}

/// The items that a required array field holds.
pub open spec fn array_field(dict: Map<Seq<char>, Node>, key: Seq<char>) -> Result<
    Seq<Node>,
    RecordFault,
> {
    match field(dict, key, NodeKind::Array) {
        Ok(node) => Ok(node->Array_0),
        Err(fault) => Err(fault),
    }
}

/// The bytes that a required binary field holds.
pub open spec fn data_field(dict: Map<Seq<char>, Node>, key: Seq<char>) -> Result<
    Seq<u8>,
    RecordFault,
> {
    match field(dict, key, NodeKind::Data) {
        Ok(node) => Ok(node->Data_0),
        Err(fault) => Err(fault),
    }
}

/// The text of a string node; nothing for any other node.
pub open spec fn node_text(node: Node) -> Option<Seq<char>> {
    match node {
        Node::String(text) => Some(text),
        _ => None,
    }
}

/// The texts of the string nodes among `items`, in order. Items of any
/// other kind are left out.
pub open spec fn string_items(items: Seq<Node>) -> Seq<Seq<char>> {
    items.filter_map(|node: Node| node_text(node))
}

/// The strings of a required array field.
pub open spec fn string_array_field(dict: Map<Seq<char>, Node>, key: Seq<char>) -> Result<
    Seq<Seq<char>>,
    RecordFault,
> {
    match array_field(dict, key) {
        Ok(items) => Ok(string_items(items)),
        Err(fault) => Err(fault),
    }
}

/// The strings of an array field that may be absent, and is then empty.
pub open spec fn optional_string_array_field(dict: Map<Seq<char>, Node>, key: Seq<char>) -> Result<
    Seq<Seq<char>>,
    RecordFault,
> {
    if dict.contains_key(key) {
        string_array_field(dict, key)
    } else {
        Ok(Seq::empty())
    }
}

/// Whether `payload_type` is the type of a Wi-Fi payload.
pub open spec fn is_wifi_type(payload_type: Seq<char>) -> bool {
    payload_type == "com.apple.wifi.managed"@
}

/// Whether `payload_type` is a type of a certificate payload.
pub open spec fn is_certificate_type(payload_type: Seq<char>) -> bool {
    payload_type == "com.apple.security.pem"@ || payload_type == "com.apple.security.root"@
}

/// What the Wi-Fi parser makes of an entry, once the entry's `PayloadType`
/// has let it go on: the fields are checked in this order, and the first
/// that fails decides the error.
pub open spec fn wifi_fields(entry: Map<Seq<char>, Node>) -> Result<WifiProfileModel, RecordFault> {
    match dictionary_field(entry, "EAPClientConfiguration"@) {
        Err(fault) => Err(fault),
        Ok(eap) => match string_array_field(eap, "PayloadCertificateAnchorUUID"@) {
            Err(fault) => Err(fault),
            Ok(anchors) => match optional_string_array_field(eap, "TLSTrustedServerNames"@) {
                Err(fault) => Err(fault),
                Ok(names) => match string_field(eap, "UserName"@) {
                    Err(fault) => Err(fault),
                    Ok(user_name) => match string_field(eap, "UserPassword"@) {
                        Err(fault) => Err(fault),
                        Ok(user_password) => match string_field(entry, "SSID_STR"@) {
                            Err(fault) => Err(fault),
                            Ok(ssid) => match string_field(eap, "TTLSInnerAuthentication"@) {
                                Err(fault) => Err(fault),
                                Ok(inner_auth_method) => Ok(
                                    WifiProfileModel {
                                        certificate_anchor_uuids: anchors,
                                        trusted_server_names: names,
                                        user_name,
                                        user_password,
                                        ssid,
                                        inner_auth_method,
                                    },
                                ),
                            },
                        },
                    },
                },
            },
        },
    }
}

/// What the Wi-Fi parser makes of an entry. An entry whose `PayloadType` is
/// anything but the Wi-Fi type is not applicable; one that has no
/// `PayloadType` is parsed all the same.
pub open spec fn wifi_outcome(entry: Map<Seq<char>, Node>) -> Result<WifiProfileModel, RecordFault> {
    if admits_wifi(entry) {
        wifi_fields(entry)
    } else {
        Err(RecordFault::NotApplicable)
    }
}

/// What the certificate parser makes of an entry, once the entry's
/// `PayloadType` has let it go on.
pub open spec fn certificate_fields(entry: Map<Seq<char>, Node>) -> Result<
    TlsCertificateModel,
    RecordFault,
> {
    match string_field(entry, "PayloadUUID"@) {
        Err(fault) => Err(fault),
        Ok(uuid) => match data_field(entry, "PayloadContent"@) {
            Err(fault) => Err(fault),
            Ok(content) => if base64_len(content.len()) <= usize::MAX {
                Ok(TlsCertificateModel { uuid, content_base64: base64_text(content) })
            } else {
                Err(RecordFault::ContentTooLong("PayloadContent"@))
            },
        },
    }
}

/// What the certificate parser makes of an entry. An entry whose
/// `PayloadType` is anything but a certificate type is not applicable; one
/// that has no `PayloadType` is parsed all the same.
pub open spec fn certificate_outcome(entry: Map<Seq<char>, Node>) -> Result<
    TlsCertificateModel,
    RecordFault,
> {
    if admits_certificate(entry) {
        certificate_fields(entry)
    } else {
        Err(RecordFault::NotApplicable)
    }
}

/// Whether `dict` binds `key` to a node of kind `kind`.
pub open spec fn has_field(dict: Map<Seq<char>, Node>, key: Seq<char>, kind: NodeKind) -> bool {
    dict.contains_key(key) && dict[key].kind() == kind
}

/// The bindings of an entry's `EAPClientConfiguration` dictionary.
pub open spec fn eap_bindings(entry: Map<Seq<char>, Node>) -> Map<Seq<char>, Node> {
    entry["EAPClientConfiguration"@]->Dictionary_0
}

/// Whether an entry's `PayloadType` lets the Wi-Fi parser go on: the entry
/// has none, or it is the string of the Wi-Fi type. A `PayloadType` that is
/// present lets the parser go on in no other case, be it a string of
/// another type or a node that is no string.
pub open spec fn admits_wifi(entry: Map<Seq<char>, Node>) -> bool {
    !entry.contains_key("PayloadType"@) || match entry["PayloadType"@] {
        Node::String(payload_type) => is_wifi_type(payload_type),
        _ => false,
    }
}

/// Whether an entry's `PayloadType` lets the certificate parser go on: the
/// entry has none, or it is the string of a certificate type. A
/// `PayloadType` that is present lets the parser go on in no other case, be
/// it a string of another type or a node that is no string.
pub open spec fn admits_certificate(entry: Map<Seq<char>, Node>) -> bool {
    !entry.contains_key("PayloadType"@) || match entry["PayloadType"@] {
        Node::String(payload_type) => is_certificate_type(payload_type),
        _ => false,
    }
}

/// Whether an entry has every field of the Wi-Fi schema but, perhaps, the
/// user's name.
pub open spec fn satisfies_wifi_schema_but_user_name(entry: Map<Seq<char>, Node>) -> bool {
    let eap = eap_bindings(entry);
    &&& has_field(entry, "EAPClientConfiguration"@, NodeKind::Dictionary)
    &&& has_field(eap, "PayloadCertificateAnchorUUID"@, NodeKind::Array)
    &&& eap.contains_key("TLSTrustedServerNames"@) ==> has_field(
        eap,
        "TLSTrustedServerNames"@,
        NodeKind::Array,
    )
    &&& has_field(eap, "UserPassword"@, NodeKind::String)
    &&& has_field(entry, "SSID_STR"@, NodeKind::String)
    &&& has_field(eap, "TTLSInnerAuthentication"@, NodeKind::String)
}

/// Whether the fields of an entry satisfy the Wi-Fi schema.
pub open spec fn satisfies_wifi_schema(entry: Map<Seq<char>, Node>) -> bool {
    &&& satisfies_wifi_schema_but_user_name(entry)
    &&& has_field(eap_bindings(entry), "UserName"@, NodeKind::String)
}

/// Whether the fields of an entry satisfy the certificate schema.
pub open spec fn satisfies_certificate_schema(entry: Map<Seq<char>, Node>) -> bool {
    &&& has_field(entry, "PayloadUUID"@, NodeKind::String)
    &&& has_field(entry, "PayloadContent"@, NodeKind::Data)
    &&& base64_len(entry["PayloadContent"@]->Data_0.len()) <= usize::MAX
}

/// The Wi-Fi parser gives a profile exactly for the entries whose
/// `PayloadType` lets it go on and whose fields satisfy the schema. An entry
/// without a `PayloadType` is among them: the discriminator may be left
/// out. It gives `NotApplicable` exactly for the entries whose `PayloadType`
/// does not let it go on.
pub proof fn lemma_wifi_success(entry: Map<Seq<char>, Node>)
    ensures
        wifi_outcome(entry) is Ok <==> admits_wifi(entry) && satisfies_wifi_schema(entry),
        wifi_outcome(entry) == Err::<WifiProfileModel, RecordFault>(RecordFault::NotApplicable)
            <==> !admits_wifi(entry),
{
}

/// The certificate parser gives a profile exactly for the entries whose
/// `PayloadType` lets it go on and whose fields satisfy the schema, and
/// `NotApplicable` exactly for the entries whose `PayloadType` does not let
/// it go on.
pub proof fn lemma_certificate_success(entry: Map<Seq<char>, Node>)
    ensures
        certificate_outcome(entry) is Ok <==> admits_certificate(entry)
            && satisfies_certificate_schema(entry),
        certificate_outcome(entry) == Err::<TlsCertificateModel, RecordFault>(
            RecordFault::NotApplicable,
        ) <==> !admits_certificate(entry),
{
}

/// Decoding undoes what the certificate parser encoded: for an entry whose
/// `PayloadType` lets the parser go on and whose fields satisfy the schema,
/// the parser gives a profile, and the bytes that its base64 text stands
/// for are the entry's content again.
pub proof fn lemma_certificate_round_trip(entry: Map<Seq<char>, Node>)
    requires
        admits_certificate(entry),
        satisfies_certificate_schema(entry),
    ensures
        certificate_outcome(entry) is Ok,
        base64_bytes(certificate_outcome(entry)->Ok_0.content_base64)
            == entry["PayloadContent"@]->Data_0,
{
    lemma_base64_round_trip(entry["PayloadContent"@]->Data_0);
}

/// Whether two texts are the same.
fn same_text(left: &str, right: &str) -> (same: bool)
    ensures
        same == (left@ == right@),
{
    let left_owned = left.to_owned();
    let right_owned = right.to_owned();
    left_owned == right_owned
}

/// The text of a required string field.
pub fn get_string(dict: &Dictionary, key: &str) -> (found: Result<String, RecordError>)
    ensures
        match found {
            Ok(text) => string_field(dict@, key@) == Ok::<Seq<char>, RecordFault>(text@),
            Err(error) => string_field(dict@, key@) == Err::<Seq<char>, RecordFault>(error@),
        },
{
    match dict.get(key) {
        None => Err(RecordError::MissingField(key.to_owned())),
        Some(node) => match node.as_string() {
            Some(text) => Ok(text.clone()),
            None => Err(RecordError::TypeMismatch(key.to_owned(), NodeKind::String)),
        },
    }
}

/// The dictionary of a required dictionary field.
pub fn get_dictionary<'a>(dict: &'a Dictionary, key: &str) -> (found: Result<
    &'a Dictionary,
    RecordError,
>)
    ensures
        match found {
            Ok(inner) => dictionary_field(dict@, key@) == Ok::<Map<Seq<char>, Node>, RecordFault>(
                inner@,
            ),
            Err(error) => dictionary_field(dict@, key@) == Err::<Map<Seq<char>, Node>, RecordFault>(
                error@,
            ),
        },
{
    match dict.get(key) {
        None => Err(RecordError::MissingField(key.to_owned())),
        Some(node) => match node.as_dictionary() {
            Some(inner) => Ok(inner),
            None => Err(RecordError::TypeMismatch(key.to_owned(), NodeKind::Dictionary)),
        },
    }
}

/// The items of a required array field.
pub fn get_array<'a>(dict: &'a Dictionary, key: &str) -> (found: Result<
    &'a Vec<DocumentNode>,
    RecordError,
>)
    ensures
        match found {
            Ok(items) => array_field(dict@, key@) == Ok::<Seq<Node>, RecordFault>(models(items@)),
            Err(error) => array_field(dict@, key@) == Err::<Seq<Node>, RecordFault>(error@),
        },
{
    match dict.get(key) {
        None => Err(RecordError::MissingField(key.to_owned())),
        Some(node) => match node.as_array() {
            Some(items) => Ok(items),
            None => Err(RecordError::TypeMismatch(key.to_owned(), NodeKind::Array)),
        },
    }
}

/// The bytes of a required binary field.
pub fn get_data<'a>(dict: &'a Dictionary, key: &str) -> (found: Result<&'a Vec<u8>, RecordError>)
    ensures
        match found {
            Ok(bytes) => data_field(dict@, key@) == Ok::<Seq<u8>, RecordFault>(bytes@),
            Err(error) => data_field(dict@, key@) == Err::<Seq<u8>, RecordFault>(error@),
        },
{
    match dict.get(key) {
        None => Err(RecordError::MissingField(key.to_owned())),
        Some(node) => match node.as_data() {
            Some(bytes) => Ok(bytes),
            None => Err(RecordError::TypeMismatch(key.to_owned(), NodeKind::Data)),
        },
    }
}

/// The strings among `items`, in order; items of any other kind are
/// dropped.
pub fn collect_strings(items: &Vec<DocumentNode>) -> (texts: Vec<String>)
    ensures
        texts.deep_view() == string_items(models(items@)),
{
    let mut texts: Vec<String> = Vec::new();
    let ghost nodes = models(items@);
    let ghost select = |node: Node| node_text(node);
    let mut i: usize = 0;
    while i < items.len()
        invariant
            i <= items.len(),
            nodes == models(items@),
            select == (|node: Node| node_text(node)),
            texts.deep_view() == nodes.take(i as int).filter_map(select),
        decreases items.len() - i,
    {
        proof {
            nodes.lemma_filter_map_take_succ(select, i as int);
        }
        if let Some(text) = items[i].as_string() {
            texts.push(text.clone());
        }
        i = i + 1;
    }
    proof {
        assert(nodes.take(items.len() as int) == nodes);
    }
    texts
}

/// The strings of a required array field.
pub fn get_string_array(dict: &Dictionary, key: &str) -> (found: Result<Vec<String>, RecordError>)
    ensures
        match found {
            Ok(texts) => string_array_field(dict@, key@) == Ok::<Seq<Seq<char>>, RecordFault>(
                texts.deep_view(),
            ),
            Err(error) => string_array_field(dict@, key@) == Err::<Seq<Seq<char>>, RecordFault>(
                error@,
            ),
        },
{
    match get_array(dict, key) {
        Err(error) => Err(error),
        Ok(items) => Ok(collect_strings(items)),
    }
}

/// The strings of an array field that may be absent, and is then empty.
pub fn get_optional_string_array(dict: &Dictionary, key: &str) -> (found: Result<
    Vec<String>,
    RecordError,
>)
    ensures
        match found {
            Ok(texts) => optional_string_array_field(dict@, key@) == Ok::<
                Seq<Seq<char>>,
                RecordFault,
            >(texts.deep_view()),
            Err(error) => optional_string_array_field(dict@, key@) == Err::<
                Seq<Seq<char>>,
                RecordFault,
            >(error@),
        },
{
    match dict.get(key) {
        None => {
            let texts: Vec<String> = Vec::new();
            assert(texts.deep_view() =~= Seq::<Seq<char>>::empty());
            Ok(texts)
        },
        Some(_) => get_string_array(dict, key),
    }
}

impl WifiProfile {
    /// Whether an entry's `PayloadType` lets this parser go on: there is
    /// none, or it is the string of the Wi-Fi type.
    pub fn admits(entry: &Dictionary) -> (admitted: bool)
        ensures
            admitted == admits_wifi(entry@),
    {
        match entry.get("PayloadType") {
            None => true,
            Some(node) => match node.as_string() {
                Some(payload_type) => same_text(payload_type.as_str(), "com.apple.wifi.managed"),
                None => false,
            },
        }
    }

    /// Reads a Wi-Fi profile out of a payload entry.
    pub fn parse(entry: &Dictionary) -> (parsed: Result<WifiProfile, RecordError>)
        ensures
            match parsed {
                Ok(profile) => wifi_outcome(entry@) == Ok::<WifiProfileModel, RecordFault>(
                    profile@,
                ),
                Err(error) => wifi_outcome(entry@) == Err::<WifiProfileModel, RecordFault>(error@),
            },
            parsed is Ok <==> admits_wifi(entry@) && satisfies_wifi_schema(entry@),
            parsed matches Err(RecordError::NotApplicable) <==> !admits_wifi(entry@),
            !entry@.contains_key("PayloadType"@) && satisfies_wifi_schema(entry@) ==> parsed is Ok,
            admits_wifi(entry@) && satisfies_wifi_schema_but_user_name(entry@) && !eap_bindings(
                entry@,
            ).contains_key("UserName"@) ==> (parsed matches Err(error) && error@
                == RecordFault::MissingField("UserName"@)),
            !eap_bindings(entry@).contains_key("TLSTrustedServerNames"@) ==> (parsed matches Ok(
                profile,
            ) ==> profile@.trusted_server_names == Seq::<Seq<char>>::empty()),
    {
        proof {
            lemma_wifi_success(entry@);
        }
        if !WifiProfile::admits(entry) {
            return Err(RecordError::NotApplicable);
        }
        let eap = match get_dictionary(entry, "EAPClientConfiguration") {
            Ok(eap) => eap,
            Err(error) => return Err(error),
        };
        let certificate_anchor_uuids = match get_string_array(eap, "PayloadCertificateAnchorUUID") {
            Ok(anchors) => anchors,
            Err(error) => return Err(error),
        };
        let trusted_server_names = match get_optional_string_array(eap, "TLSTrustedServerNames") {
            Ok(names) => names,
            Err(error) => return Err(error),
        };
        let user_name = match get_string(eap, "UserName") {
            Ok(text) => text,
            Err(error) => return Err(error),
        };
        let user_password = match get_string(eap, "UserPassword") {
            Ok(text) => text,
            Err(error) => return Err(error),
        };
        let ssid = match get_string(entry, "SSID_STR") {
            Ok(text) => text,
            Err(error) => return Err(error),
        };
        let inner_auth_method = match get_string(eap, "TTLSInnerAuthentication") {
            Ok(text) => text,
            Err(error) => return Err(error),
        };
        Ok(
            WifiProfile {
                certificate_anchor_uuids,
                trusted_server_names,
                user_name,
                user_password,
                ssid,
                inner_auth_method,
            },
        )
    }
}

impl TlsCertificateProfile {
    /// Whether an entry's `PayloadType` lets this parser go on: there is
    /// none, or it is the string of a certificate type.
    pub fn admits(entry: &Dictionary) -> (admitted: bool)
        ensures
            admitted == admits_certificate(entry@),
    {
        match entry.get("PayloadType") {
            None => true,
            Some(node) => match node.as_string() {
                Some(payload_type) => same_text(payload_type.as_str(), "com.apple.security.pem")
                    || same_text(payload_type.as_str(), "com.apple.security.root"),
                None => false,
            },
        }
    }

    /// Reads a certificate anchor out of a payload entry. The certificate's
    /// bytes are turned into base64 text.
    pub fn parse(entry: &Dictionary) -> (parsed: Result<TlsCertificateProfile, RecordError>)
        ensures
            match parsed {
                Ok(profile) => certificate_outcome(entry@) == Ok::<
                    TlsCertificateModel,
                    RecordFault,
                >(profile@),
                Err(error) => certificate_outcome(entry@) == Err::<
                    TlsCertificateModel,
                    RecordFault,
                >(error@),
            },
            parsed is Ok <==> admits_certificate(entry@) && satisfies_certificate_schema(entry@),
            parsed matches Err(RecordError::NotApplicable) <==> !admits_certificate(entry@),
            parsed matches Ok(profile) ==> base64_bytes(profile@.content_base64)
                == entry@["PayloadContent"@]->Data_0,
    {
        proof {
            lemma_certificate_success(entry@);
            if admits_certificate(entry@) && satisfies_certificate_schema(entry@) {
                lemma_certificate_round_trip(entry@);
            }
        }
        if !TlsCertificateProfile::admits(entry) {
            return Err(RecordError::NotApplicable);
        }
        let uuid = match get_string(entry, "PayloadUUID") {
            Ok(text) => text,
            Err(error) => return Err(error),
        };
        let content = match get_data(entry, "PayloadContent") {
            Ok(bytes) => bytes,
            Err(error) => return Err(error),
        };
        match encode_base64(content.as_slice()) {
            Some(content_base64) => Ok(TlsCertificateProfile { uuid, content_base64 }),
            None => Err(RecordError::ContentTooLong("PayloadContent".to_owned())),
        }
    }
}

} // verus!
