//! Transports: what a member publishes on and what it can receive on.

use vstd::prelude::*;
use crate::json::{
    clone_members, is_first, lemma_model, members_model, position, Json, JsonMember, JsonView,
};
use crate::text::{same_text, texts};

verus! {

/// A transport as it stands on the wire: its type, and every other member of
/// the object untouched.
#[derive(Debug)]
pub struct RawRtcTransport {
    /// The transport's `type`.
    pub transport_type: String,
    /// All other members.
    pub extra_fields: Vec<JsonMember>,
}

/// A LiveKit transport.
#[derive(Debug)]
pub struct LiveKitTransport {
    /// Where to exchange an OpenID token for SFU credentials.
    pub livekit_service_url: String,
}

/// A transport this library has no typed form for.
#[derive(Debug)]
pub struct UnsupportedTransport {
    /// The transport's `type`.
    pub transport_type: String,
    /// All other members.
    pub extra_fields: Vec<JsonMember>,
}

/// A transport, typed where its type is known.
#[derive(Debug)]
pub enum RtcTransport {
    /// LiveKit, with the one member it needs.
    LiveKit(LiveKitTransport),
    /// Anything else, kept whole.
    Unsupported(UnsupportedTransport),
}

/// The `transports` object of a member event.
#[derive(Debug)]
pub struct MemberTransports {
    /// The transports the member publishes on.
    pub published: Vec<RawRtcTransport>,
    /// The transport types the member can receive on.
    pub can_subscribe: Vec<String>,
}

/// The text of the first member named `key`, where that member is a string.
pub open spec fn member_text(members: Seq<JsonMember>, key: Seq<char>) -> Option<String> {
    if crate::json::has_member(members, key) {
        match members[crate::json::first_at(members, key)].value {
            Json::Text(text) => Some(text),
            _ => None,
        }
    } else {
        None
    }
}

impl RawRtcTransport {
    /// The typed form: LiveKit where the type says so and the service URL is
    /// stated as a string, and otherwise the transport kept whole.
    pub open spec fn typed(self) -> RtcTransport {
        match member_text(self.extra_fields@, "livekit_service_url"@) {
            Some(url) => if self.transport_type@ == "livekit"@ {
                RtcTransport::LiveKit(LiveKitTransport { livekit_service_url: url })
            } else {
                RtcTransport::Unsupported(
                    UnsupportedTransport {
                        transport_type: self.transport_type,
                        extra_fields: self.extra_fields,
                    },
                )
            },
            None => RtcTransport::Unsupported(
                UnsupportedTransport {
                    transport_type: self.transport_type,
                    extra_fields: self.extra_fields,
                },
            ),
        }
    }

    /// Reads a transport into its typed form.
    pub fn into_typed(self) -> (typed: RtcTransport)
        ensures
            typed == self.typed(),
    {
        if same_text(self.transport_type.as_str(), "livekit") {
            match position(&self.extra_fields, "livekit_service_url") {
                Some(i) => match &self.extra_fields[i].value {
                    Json::Text(url) => {
                        return RtcTransport::LiveKit(
                            LiveKitTransport { livekit_service_url: url.clone() },
                        );
                    },
                    _ => {},
                },
                None => {},
            }
        }
        RtcTransport::Unsupported(
            UnsupportedTransport {
                transport_type: self.transport_type,
                extra_fields: self.extra_fields,
            },
        )
    }
}

/// The typed forms of a list of transports.
pub open spec fn typed_all(raw: Seq<RawRtcTransport>) -> Seq<RtcTransport> {
    raw.map_values(|transport: RawRtcTransport| transport.typed())
}

/// Reads every transport of a list into its typed form.
pub fn into_typed_all(raw: Vec<RawRtcTransport>) -> (typed: Vec<RtcTransport>)
    ensures
        typed@ == typed_all(raw@),
{
    let ghost whole = raw@;
    let mut typed: Vec<RtcTransport> = Vec::new();
    for transport in iter: raw
        invariant
            iter.seq() == whole,
            typed@ == typed_all(whole.take(iter.index())),
    {
        let ghost before = typed@;
        typed.push(transport.into_typed());
        assert(typed@ =~= typed_all(whole.take(iter.index() + 1)));
    }
    assert(whole.take(whole.len() as int) =~= whole);
    typed
}

/// Model of a [`RawRtcTransport`].
#[verifier::ext_equal]
pub struct RawTransportView {
    /// The transport's `type`.
    pub transport_type: Seq<char>,
    /// All other members.
    pub extra: Map<Seq<char>, JsonView>,
}

/// Model of a [`MemberTransports`].
#[verifier::ext_equal]
pub struct TransportsView {
    /// The transports the member publishes on.
    pub published: Seq<RawTransportView>,
    /// The transport types the member can receive on.
    pub can_subscribe: Seq<Seq<char>>,
}

impl View for RawRtcTransport {
    type V = RawTransportView;

    open spec fn view(&self) -> RawTransportView {
        RawTransportView {
            transport_type: self.transport_type@,
            extra: members_model(self.extra_fields@),
        }
    }
}

impl View for MemberTransports {
    type V = TransportsView;

    open spec fn view(&self) -> TransportsView {
        TransportsView {
            published: self.published@.map_values(|transport: RawRtcTransport| transport@),
            can_subscribe: texts(self.can_subscribe@),
        }
    }
}

impl MemberTransports {
    /// Nothing published and nothing stated about what can be received.
    pub fn none() -> (transports: MemberTransports)
        ensures
            transports.published@.len() == 0,
            transports.can_subscribe@.len() == 0,
    {
        MemberTransports { published: Vec::new(), can_subscribe: Vec::new() }
    }

    /// Publishing on exactly `transport`, and able to receive on its type.
    pub fn publishing(transport: RawRtcTransport) -> (transports: MemberTransports)
        ensures
            transports.published@ == seq![transport],
            transports.can_subscribe@ == seq![transport.transport_type],
    {
        let mut can_subscribe: Vec<String> = Vec::new();
        can_subscribe.push(transport.transport_type.clone());
        let mut published: Vec<RawRtcTransport> = Vec::new();
        published.push(transport);
        assert(published@ =~= seq![transport]);
        assert(can_subscribe@ =~= seq![transport.transport_type]);
        MemberTransports { published, can_subscribe }
    }

    /// Whether nothing is published and nothing is said about receiving.
    pub open spec fn says_nothing(self) -> bool {
        self.published@.len() == 0 && self.can_subscribe@.len() == 0
    }

    /// Whether nothing is published and nothing is said about receiving.
    pub fn is_empty(&self) -> (yes: bool)
        ensures
            yes == self.says_nothing(),
    {
        self.published.is_empty() && self.can_subscribe.is_empty()
    }
}

/// Whether two transports say the same.
pub open spec fn alike(a: RtcTransport, b: RtcTransport) -> bool {
    match (a, b) {
        (RtcTransport::LiveKit(x), RtcTransport::LiveKit(y)) => x == y,
        (RtcTransport::Unsupported(x), RtcTransport::Unsupported(y)) => {
            &&& x.transport_type == y.transport_type
            &&& members_model(x.extra_fields@) == members_model(y.extra_fields@)
        },
        (_, _) => false,
    }
}

impl Clone for RtcTransport {
    fn clone(&self) -> (copy: RtcTransport)
        ensures
            alike(copy, *self),
    {
        match self {
            RtcTransport::LiveKit(livekit) => RtcTransport::LiveKit(
                LiveKitTransport { livekit_service_url: livekit.livekit_service_url.clone() },
            ),
            RtcTransport::Unsupported(unsupported) => RtcTransport::Unsupported(
                UnsupportedTransport {
                    transport_type: unsupported.transport_type.clone(),
                    extra_fields: clone_members(&unsupported.extra_fields),
                },
            ),
        }
    }
}

impl RtcTransport {
    /// The wire form.
    pub open spec fn wire(self) -> RawTransportView {
        match self {
            RtcTransport::LiveKit(livekit) => RawTransportView {
                transport_type: "livekit"@,
                extra: map![
                    "livekit_service_url"@ => JsonView::Text(livekit.livekit_service_url@),
                ],
            },
            RtcTransport::Unsupported(unsupported) => RawTransportView {
                transport_type: unsupported.transport_type@,
                extra: members_model(unsupported.extra_fields@),
            },
        }
    }

    /// Puts a transport in its wire form.
    pub fn into_raw(self) -> (raw: RawRtcTransport)
        ensures
            raw@ == self.wire(),
    {
        match self {
            RtcTransport::LiveKit(livekit) => {
                let url: Json = Json::Text(livekit.livekit_service_url);
                let mut extra_fields: Vec<JsonMember> = Vec::new();
                extra_fields.push(
                    JsonMember { key: "livekit_service_url".to_owned(), value: url },
                );
                proof {
                    lemma_model(url);
                    lemma_one_member(extra_fields@);
                }
                RawRtcTransport { transport_type: "livekit".to_owned(), extra_fields }
            },
            RtcTransport::Unsupported(unsupported) => RawRtcTransport {
                transport_type: unsupported.transport_type,
                extra_fields: unsupported.extra_fields,
            },
        }
    }
}

/// What an object with a single member amounts to.
proof fn lemma_one_member(members: Seq<JsonMember>)
    requires
        members.len() == 1,
    ensures
        members_model(members) == map![members[0].key@ => members[0].value@],
{
    assert(is_first(members, members[0].key@, 0));
    assert(members_model(members) =~= map![members[0].key@ => members[0].value@]);
}

/// A transport is taken for LiveKit exactly if its type says so and it states its service
/// URL as a string, and then with that URL. Any other is kept whole.
pub proof fn law_transport_is_typed_by_what_it_says(raw: RawRtcTransport)
    ensures
        raw.typed() is LiveKit <==> raw.transport_type@ == "livekit"@ && raw@.extra.contains_key(
            "livekit_service_url"@,
        ) && raw@.extra["livekit_service_url"@] is Text,
        raw.typed() matches RtcTransport::LiveKit(livekit) ==> raw@.extra["livekit_service_url"@]
            == JsonView::Text(livekit.livekit_service_url@),
        raw.typed() matches RtcTransport::Unsupported(other) ==> other.transport_type
            == raw.transport_type && other.extra_fields == raw.extra_fields,
{
    let members = raw.extra_fields@;
    let key = "livekit_service_url"@;
    if crate::json::has_member(members, key) {
        let value = members[crate::json::first_at(members, key)].value;
        assert(members_model(members)[key] == value@);
        match value {
            Json::Text(text) => {
                assert(value@ == JsonView::Text(text@));
            },
            Json::Array(_) => {
                lemma_model(value);
            },
            Json::Object(_) => {
                lemma_model(value);
            },
            _ => {},
        }
    }
}

/// A transport that is put on the wire is read as the transport it was. One without a
/// typed form that spells a LiveKit transport is left out, for it is read as one.
pub proof fn law_transport_is_read_back(transport: RtcTransport, raw: RawRtcTransport)
    requires
        raw@ == transport.wire(),
        transport matches RtcTransport::Unsupported(other) ==> other.transport_type@
            != "livekit"@,
    ensures
        transport is LiveKit <==> raw.typed() is LiveKit,
        transport matches RtcTransport::LiveKit(livekit) ==> raw.typed() is LiveKit
            && raw.typed()->LiveKit_0.livekit_service_url@ == livekit.livekit_service_url@,
        transport matches RtcTransport::Unsupported(other) ==> raw.typed() is Unsupported
            && raw.typed()->Unsupported_0.transport_type@ == other.transport_type@
            && members_model(raw.typed()->Unsupported_0.extra_fields@) == members_model(
            other.extra_fields@,
        ),
{
    law_transport_is_typed_by_what_it_says(raw);
}

} // verus!
