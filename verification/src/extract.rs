//! The payload extractor: one outcome for each entry of a document's
//! payload list, and the two lists that the outcomes fall into.

use crate::aggregate::{
    failures, lemma_partition_map, lemma_partition_total, map_outcome, partition_results,
    successes,
};
use crate::document::{models, Dictionary, DocumentError, DocumentNode, Node};
use crate::record::{
    admits_certificate, admits_wifi, certificate_outcome, satisfies_wifi_schema, wifi_outcome,
    RecordError, RecordFault, TlsCertificateModel, TlsCertificateProfile, WifiProfile,
    WifiProfileModel,
};
use vstd::prelude::*;

verus! {

/// A record read out of one payload entry.
#[derive(Clone, Debug, PartialEq, Eq)]
pub enum PayloadRecord {
    Wifi(WifiProfile),
    TlsCertificate(TlsCertificateProfile),
}

/// The mathematical value of a `PayloadRecord`.
pub enum PayloadRecordModel {
    Wifi(WifiProfileModel),
    TlsCertificate(TlsCertificateModel),
}

impl View for PayloadRecord {
    type V = PayloadRecordModel;

    open spec fn view(&self) -> PayloadRecordModel {
        match self {
            PayloadRecord::Wifi(profile) => PayloadRecordModel::Wifi(profile@),
            PayloadRecord::TlsCertificate(profile) => PayloadRecordModel::TlsCertificate(profile@),
        }
    }
}

/// The records and the errors of one document, each list in the order of
/// the payload entries it came from.
#[derive(Clone, Debug, PartialEq, Eq)]
pub struct ExtractionResult {
    pub records: Vec<PayloadRecord>,
    pub errors: Vec<RecordError>,
}

/// The mathematical value of an `ExtractionResult`.
pub struct ExtractionModel {
    pub records: Seq<PayloadRecordModel>,
    pub errors: Seq<RecordFault>,
}

/// The model of a record.
pub open spec fn record_model(record: PayloadRecord) -> PayloadRecordModel {
    record@
}

/// The model of an error.
pub open spec fn fault_model(error: RecordError) -> RecordFault {
    error@
}

/// The model of an outcome.
pub open spec fn outcome_model(outcome: Result<PayloadRecord, RecordError>) -> Result<
    PayloadRecordModel,
    RecordFault,
> {
    match outcome {
        Ok(record) => Ok(record@),
        Err(error) => Err(error@),
    }
}

/// The models of a sequence of outcomes, one for one.
pub open spec fn outcome_models(outcomes: Seq<Result<PayloadRecord, RecordError>>) -> Seq<
    Result<PayloadRecordModel, RecordFault>,
> {
    outcomes.map_values(|outcome: Result<PayloadRecord, RecordError>| outcome_model(outcome))
}

impl View for ExtractionResult {
    type V = ExtractionModel;

    open spec fn view(&self) -> ExtractionModel {
        ExtractionModel {
            records: self.records@.map_values(|record: PayloadRecord| record_model(record)),
            errors: self.errors@.map_values(|error: RecordError| fault_model(error)),
        }
    }
}

/// The outcome of one payload entry. The parsers are tried in a fixed
/// order, Wi-Fi first, until one gives a record. Where none does, the
/// entry's error is the first that is not `NotApplicable`, or the last
/// `NotApplicable` if there is no other.
pub open spec fn entry_outcome(entry: Map<Seq<char>, Node>) -> Result<
    PayloadRecordModel,
    RecordFault,
> {
    match wifi_outcome(entry) {
        Ok(profile) => Ok(PayloadRecordModel::Wifi(profile)),
        Err(first) => match certificate_outcome(entry) {
            Ok(profile) => Ok(PayloadRecordModel::TlsCertificate(profile)),
            Err(second) => if first is NotApplicable {
                Err(second)
            } else {
                Err(first)
            },
        },
    }
}

/// The bindings of a dictionary node.
pub open spec fn node_bindings(node: Node) -> Map<Seq<char>, Node> {
    node->Dictionary_0
}

/// The payload entries of a document: the items of the array that the
/// root dictionary binds to `PayloadContent`, each of them a dictionary.
/// A document of any other shape has none.
pub open spec fn payload_entries(document: Node) -> Option<Seq<Map<Seq<char>, Node>>> {
    match document {
        Node::Dictionary(root) => if root.contains_key("PayloadContent"@) {
            match root["PayloadContent"@] {
                Node::Array(items) => if forall|i: int|
                    0 <= i < items.len() ==> #[trigger] items[i] is Dictionary {
                    Some(items.map_values(|node: Node| node_bindings(node)))
                } else {
                    None
                },
                _ => None,
            }
        } else {
            None
        },
        _ => None,
    }
}

/// The outcomes of a list of payload entries, one for each entry and in
/// the entries' order.
pub open spec fn entry_outcomes(entries: Seq<Map<Seq<char>, Node>>) -> Seq<
    Result<PayloadRecordModel, RecordFault>,
> {
    entries.map_values(|entry: Map<Seq<char>, Node>| entry_outcome(entry))
}

/// The outcomes of a document's payload entries.
pub open spec fn document_outcomes(document: Node) -> Result<
    Seq<Result<PayloadRecordModel, RecordFault>>,
    DocumentError,
> {
    match payload_entries(document) {
        Some(entries) => Ok(entry_outcomes(entries)),
        None => Err(DocumentError::UnexpectedShape),
    }
}

/// The extraction of a document: the successes and the failures among its
/// entries' outcomes.
pub open spec fn extraction(document: Node) -> Result<ExtractionModel, DocumentError> {
    match document_outcomes(document) {
        Ok(outcomes) => Ok(
            ExtractionModel { records: successes(outcomes), errors: failures(outcomes) },
        ),
        Err(error) => Err(error),
    }
}

/// Whether an entry has a `PayloadType` that lets no parser go on: one that
/// is neither the string of the Wi-Fi type nor the string of a certificate
/// type.
pub open spec fn has_foreign_type(entry: Map<Seq<char>, Node>) -> bool {
    !admits_wifi(entry) && !admits_certificate(entry)
}

/// Whether an entry gives a Wi-Fi profile.
pub open spec fn gives_wifi(entry: Map<Seq<char>, Node>) -> bool {
    wifi_outcome(entry) is Ok
}

/// The record of an entry that gives a Wi-Fi profile.
pub open spec fn wifi_record(entry: Map<Seq<char>, Node>) -> PayloadRecordModel {
    PayloadRecordModel::Wifi(wifi_outcome(entry)->Ok_0)
}

/// Whether each of `entries` either gives a Wi-Fi profile or has a
/// `PayloadType` that lets no parser go on.
pub open spec fn only_wifi_and_foreign(entries: Seq<Map<Seq<char>, Node>>) -> bool {
    forall|i: int|
        0 <= i < entries.len() ==> gives_wifi(#[trigger] entries[i]) || has_foreign_type(
            entries[i],
        )
}

/// The Wi-Fi profiles of the entries that give one, in the entries' order.
pub open spec fn wifi_records(entries: Seq<Map<Seq<char>, Node>>) -> Seq<PayloadRecordModel> {
    entries.filter(|entry: Map<Seq<char>, Node>| gives_wifi(entry)).map_values(
        |entry: Map<Seq<char>, Node>| wifi_record(entry),
    )
}

/// One `NotApplicable` for each entry that has a `PayloadType` that lets no
/// parser go on.
pub open spec fn foreign_faults(entries: Seq<Map<Seq<char>, Node>>) -> Seq<RecordFault> {
    entries.filter(|entry: Map<Seq<char>, Node>| has_foreign_type(entry)).map_values(
        |entry: Map<Seq<char>, Node>| RecordFault::NotApplicable,
    )
}

/// Reads one payload entry with the first parser that takes it.
pub fn parse_entry(entry: &Dictionary) -> (outcome: Result<PayloadRecord, RecordError>)
    ensures
        outcome_model(outcome) == entry_outcome(entry@),
        !entry@.contains_key("PayloadType"@) && satisfies_wifi_schema(entry@) ==> outcome matches Ok(
            PayloadRecord::Wifi(_),
        ),
        has_foreign_type(entry@) ==> outcome matches Err(RecordError::NotApplicable),
{
    match WifiProfile::parse(entry) {
        Ok(profile) => Ok(PayloadRecord::Wifi(profile)),
        Err(first) => match TlsCertificateProfile::parse(entry) {
            Ok(profile) => Ok(PayloadRecord::TlsCertificate(profile)),
            Err(second) => match first {
                RecordError::NotApplicable => Err(second),
                _ => Err(first),
            },
        },
    }
}

/// The array that a document's root binds to `PayloadContent`.
fn payload_items(document: &DocumentNode) -> (found: Option<&Vec<DocumentNode>>)
    ensures
        match found {
            Some(items) => document@ is Dictionary && document@->Dictionary_0.contains_key(
                "PayloadContent"@,
            ) && document@->Dictionary_0["PayloadContent"@] == Node::Array(models(items@)),
            None => !(document@ is Dictionary && document@->Dictionary_0.contains_key(
                "PayloadContent"@,
            ) && document@->Dictionary_0["PayloadContent"@] is Array),
        },
{
    match document.as_dictionary() {
        None => None,
        Some(root) => match root.get("PayloadContent") {
            None => None,
            Some(content) => content.as_array(),
        },
    }
}

/// Reads every payload entry of a document. There is one outcome for each
/// entry, in the entries' order; an entry that fails does not keep the
/// others from being read.
pub fn extract_outcomes(document: &DocumentNode) -> (extracted: Result<
    Vec<Result<PayloadRecord, RecordError>>,
    DocumentError,
>)
    ensures
        match extracted {
            Ok(outcomes) => document_outcomes(document@) == Ok::<
                Seq<Result<PayloadRecordModel, RecordFault>>,
                DocumentError,
            >(outcome_models(outcomes@)),
            Err(error) => document_outcomes(document@) == Err::<
                Seq<Result<PayloadRecordModel, RecordFault>>,
                DocumentError,
            >(error),
        },
        extracted matches Ok(outcomes) ==> outcomes@.len() == payload_entries(
            document@,
        )->Some_0.len(),
{
    let items = match payload_items(document) {
        Some(items) => items,
        None => return Err(DocumentError::UnexpectedShape),
    };
    let ghost nodes = models(items@);
    let mut outcomes: Vec<Result<PayloadRecord, RecordError>> = Vec::new();
    let mut i: usize = 0;
    while i < items.len()
        invariant
            i <= items.len(),
            nodes == models(items@),
            document@ is Dictionary,
            document@->Dictionary_0.contains_key("PayloadContent"@),
            document@->Dictionary_0["PayloadContent"@] == Node::Array(nodes),
            outcomes@.len() == i,
            forall|k: int| 0 <= k < i ==> #[trigger] nodes[k] is Dictionary,
            forall|k: int|
                0 <= k < i ==> outcome_model(#[trigger] outcomes@[k]) == entry_outcome(
                    node_bindings(nodes[k]),
                ),
        decreases items.len() - i,
    {
        match items[i].as_dictionary() {
            None => {
                assert(!(nodes[i as int] is Dictionary));
                return Err(DocumentError::UnexpectedShape);
            },
            Some(entry) => {
                let outcome = parse_entry(entry);
                outcomes.push(outcome);
            },
        }
        i = i + 1;
    }
    proof {
        let entries = nodes.map_values(|node: Node| node_bindings(node));
        assert(outcome_models(outcomes@) =~= entry_outcomes(entries));
    }
    Ok(outcomes)
}

/// Extracts the records of a document, and the errors of the entries that
/// gave none. Each entry contributes to exactly one of the two lists.
pub fn extract(document: &DocumentNode) -> (extracted: Result<ExtractionResult, DocumentError>)
    ensures
        match extracted {
            Ok(result) => extraction(document@) == Ok::<ExtractionModel, DocumentError>(result@),
            Err(error) => extraction(document@) == Err::<ExtractionModel, DocumentError>(error),
        },
        extracted is Ok <==> payload_entries(document@) is Some,
        extracted matches Ok(result) ==> result@.records.len() + result@.errors.len()
            == payload_entries(document@)->Some_0.len(),
        extracted matches Ok(result) ==> (only_wifi_and_foreign(payload_entries(document@)->Some_0)
            ==> result@.records == wifi_records(payload_entries(document@)->Some_0)
            && result@.errors == foreign_faults(payload_entries(document@)->Some_0)),
{
    proof {
        if payload_entries(document@) is Some {
            let entries = payload_entries(document@)->Some_0;
            lemma_partition_total(entry_outcomes(entries));
            if only_wifi_and_foreign(entries) {
                lemma_wifi_among_foreign(entries);
            }
        }
    }
    match extract_outcomes(document) {
        Err(error) => Err(error),
        Ok(outcomes) => {
            proof {
                let on_record = |record: PayloadRecord| record_model(record);
                let on_error = |error: RecordError| fault_model(error);
                lemma_partition_map(outcomes@, on_record, on_error);
                assert(outcome_models(outcomes@) =~= outcomes@.map_values(
                    |outcome: Result<PayloadRecord, RecordError>|
                        map_outcome(outcome, on_record, on_error),
                ));
            }
            let (records, errors) = partition_results(outcomes);
            Ok(ExtractionResult { records, errors })
        },
    }
}

/// Among entries of which each either gives a Wi-Fi profile or has a
/// `PayloadType` that lets no parser go on, the records are the Wi-Fi
/// profiles of the former, in their order, and the errors are one
/// `NotApplicable` for each of the latter.
pub proof fn lemma_wifi_among_foreign(entries: Seq<Map<Seq<char>, Node>>)
    requires
        only_wifi_and_foreign(entries),
    ensures
        successes(entry_outcomes(entries)) == wifi_records(entries),
        failures(entry_outcomes(entries)) == foreign_faults(entries),
        wifi_records(entries).len() + foreign_faults(entries).len() == entries.len(),
    decreases entries.len(),
{
    let wifi = |entry: Map<Seq<char>, Node>| gives_wifi(entry);
    let foreign = |entry: Map<Seq<char>, Node>| has_foreign_type(entry);
    let record = |entry: Map<Seq<char>, Node>| wifi_record(entry);
    let fault = |entry: Map<Seq<char>, Node>| RecordFault::NotApplicable;
    if entries.len() == 0 {
        assert(entries.filter(wifi) =~= Seq::empty()) by {
            reveal(Seq::filter);
        }
        assert(entries.filter(foreign) =~= Seq::empty()) by {
            reveal(Seq::filter);
        }
    } else {
        let front = entries.drop_last();
        let last = entries.last();
        lemma_wifi_among_foreign(front);
        assert(entries == front.push(last));
        assert(entry_outcomes(entries).drop_last() =~= entry_outcomes(front));
        front.lemma_filter_push(last, wifi);
        front.lemma_filter_push(last, foreign);
        if gives_wifi(last) {
            front.filter(wifi).lemma_push_map_commute(record, last);
        } else {
            front.filter(foreign).lemma_push_map_commute(fault, last);
        }
    }
}

} // verus!
