//! What holds from one end of a conversation to the other.
//!
//! A message goes through the sender's steps, an envelope, a topic and the recipient's steps. The laws
//! here follow it all the way: what the one client is given to send is what the other client hands out.
use vstd::prelude::*;

use crate::error::Failure;
use crate::mqtt::{law_delivery_names_the_sender, processing, taken_in, topic_text};
use crate::mqtt::{Deed, Signal};
use crate::payload::{decoded, framed, law_decode_undoes_encode, Fault, Message};
use crate::receive::{agreed, answers, first_stage, in_sequence, is_pair, pair_view, reads_back};
use crate::receive::{law_first_message_is_read_back, law_first_message_names_its_keys};
use crate::receive::{law_messages_are_read_back, law_messages_join_the_exchange};
use crate::receive::{law_next_message_is_expected, law_replies_are_read_back};
use crate::receive::{law_replies_join_the_exchange, secret_view, unwrapped};
use crate::receive::{DecryptStep, Published};
use crate::sending::{enqueued, law_what_is_sealed_first_was_asked_for, packed};
use crate::sending::{law_what_is_sealed_was_asked_for, reply_bundle, send_begun, SendStage};
use crate::sending::SendStep;
use crate::session::{encrypts_to, law_both_ends_use_the_same_ad, optional_contact};
use crate::session::{optional_session, Contact, Envelope, Session};
use crate::signal::{chain_after, chain_limit, orderly, received_count};
use crate::signal::{Bundle, Exchange, Sealing, Turn, SIGNED_PRE_KEY_ID};
use crate::transport::BundleResponse;

verus! {

// ---------------------------------------------------------------------------
// The recipient's steps
// ---------------------------------------------------------------------------

/// The first message of a session is handed out as it was encrypted. From the envelope that the sender
/// has made, the recipient's steps ask for the identity key, for the signed pre-key and for the one-time
/// pre-key that the sender has used, agree on the session, decrypt, have the session saved under the
/// sender's user id, and end with exactly the bytes that the sender has encrypted.
pub proof fn law_first_message_is_handed_out(
    payload: Seq<u8>,
    sender: (Seq<u8>, Seq<u8>),
    keys: Published,
    signature: Seq<u8>,
    contact: Contact,
    ephemeral: Seq<u8>,
    seed: Seq<u8>,
    now: Result<u128, Seq<char>>,
    outcome: (Envelope, Session),
    sender_ids: (Seq<char>, Seq<char>),
    chance: Seq<u8>,
    d1: DecryptStep,
    d2: DecryptStep,
    d3: DecryptStep,
    d4: DecryptStep,
    d5: DecryptStep,
    d6: DecryptStep,
    d7: DecryptStep,
)
    requires
        is_pair(sender),
        keys.valid(),
        contact.bundle == keys.bundle(signature),
        encrypts_to(payload, sender, None, Some(contact), ephemeral, seed, now, Ok(outcome)),
        d1@ == first_stage(Ok(outcome.0), sender_ids),
        d1 matches DecryptStep::IdentityKey(s) ==> d2@ == s.next(Ok(Some(keys.identity))),
        d2 matches DecryptStep::SignedPreKey(s) ==> d3@ == s.next(Ok(Some(keys.signed_pre_key))),
        match d3 {
            DecryptStep::OneTimePreKey(s) => d4@ == s.next(
                Ok(
                    match keys.one_time {
                        Some(k) => Some(k.1),
                        None => None,
                    },
                ),
            ),
            _ => d4 == d3,
        },
        d4 matches DecryptStep::Agree(g) ==> {
            &&& d5@ == agreed(
                g.invitation@,
                g.identity_secret@,
                pair_view(g.signed_pre_key),
                secret_view(g.one_time_secret),
            )
            &&& answers(
                g.invitation@,
                g.identity_secret@,
                pair_view(g.signed_pre_key),
                secret_view(g.one_time_secret),
                d5@,
            )
        },
        d5 matches DecryptStep::LocalIdentity(l) ==> {
            &&& d6@ == unwrapped(l.incoming@, l.session@, Ok(Some(keys.identity)), chance)
            &&& reads_back(l.incoming@, l.session@, keys.identity.1, d6@)
        },
        d6 matches DecryptStep::Save(s) ==> d7@ == s.next(Ok(())),
    ensures
        d1 is IdentityKey && d2 is SignedPreKey && d4 is Agree && d5 is LocalIdentity && d6 is Save,
        d2->SignedPreKey_0.invitation.spk_id == SIGNED_PRE_KEY_ID,
        match keys.one_time {
            Some(k) => d3 matches DecryptStep::OneTimePreKey(s) && s.opk_id == k.0,
            None => d3 is Agree,
        },
        d6->Save_0.sender_id@ == sender_ids.0,
        d6->Save_0.session.remote_user_id@ == sender_ids.0,
        d6->Save_0.session.remote_device_id@ == sender_ids.1,
        d6->Save_0.session.remote_identity_pub@ == sender.1,
        d7 matches DecryptStep::Done(p) && p@ == payload,
{
    law_first_message_names_its_keys(
        payload,
        sender,
        contact,
        ephemeral,
        seed,
        now,
        outcome,
        sender_ids,
    );
    law_first_message_is_read_back(
        payload,
        sender,
        keys,
        signature,
        contact,
        ephemeral,
        seed,
        now,
        outcome,
        sender_ids,
        d5@,
        chance,
        d6@,
    );
}

/// A further message of the one who has started a session is handed out as it was encrypted, with the
/// session that the recipient has in its store: the steps ask for that session and for the identity key,
/// decrypt, have the session saved, and end with exactly the bytes that the sender has encrypted. Both
/// ends are then in an exchange that has gone on by that message.
pub proof fn law_further_message_is_handed_out(
    payload: Seq<u8>,
    x: Exchange,
    sender: (Seq<u8>, Seq<u8>),
    sender_session: Session,
    recipient: (Seq<u8>, Seq<u8>),
    recipient_session: Session,
    contact: Option<Contact>,
    ephemeral: Seq<u8>,
    seed: Seq<u8>,
    now: Result<u128, Seq<char>>,
    outcome: (Envelope, Session),
    sender_ids: (Seq<char>, Seq<char>),
    chance: Seq<u8>,
    d1: DecryptStep,
    d2: DecryptStep,
    d3: DecryptStep,
    d4: DecryptStep,
)
    requires
        x.valid(),
        x.hearing.len() == 0,
        sender_session.ratchet == x.initiator(),
        recipient_session.ratchet == x.responder(),
        sender_session.remote_identity == recipient.1,
        recipient_session.remote_identity == sender.1,
        orderly(x.heard().push(x.sent.len())),
        chain_after(x.heard()).1 == Set::<int>::empty() || received_count(
            recipient_session.ratchet,
        ) is Ok,
        encrypts_to(
            payload,
            sender,
            Some(sender_session),
            contact,
            ephemeral,
            seed,
            now,
            Ok(outcome),
        ),
        d1@ == first_stage(Ok(outcome.0), sender_ids),
        d1 matches DecryptStep::Session(s) ==> d2@ == s.next(Ok(Some(Ok(recipient_session)))),
        d2 matches DecryptStep::LocalIdentity(l) ==> {
            &&& d3@ == unwrapped(l.incoming@, l.session@, Ok(Some(recipient)), chance)
            &&& reads_back(l.incoming@, l.session@, recipient.1, d3@)
        },
        d3 matches DecryptStep::Save(s) ==> d4@ == s.next(Ok(())),
    ensures
        d1 is Session && d2 is LocalIdentity && d3 is Save,
        d3->Save_0.sender_id@ == sender_ids.0,
        d4 matches DecryptStep::Done(p) && p@ == payload,
        exists|y: Exchange|
            {
                &&& y.valid()
                &&& y.hearing.len() == 0
                &&& y.sent.len() == x.sent.len() + 1
                &&& outcome.1.ratchet == #[trigger] y.initiator()
                &&& d3->Save_0.session@.ratchet == y.responder()
                &&& y.heard() == x.heard().push(x.sent.len())
            },
        outcome.1.remote_identity == recipient.1,
        d3->Save_0.session@.remote_identity == sender.1,
{
    let n = x.sent.len();
    law_messages_join_the_exchange(
        payload,
        sender,
        sender_session,
        contact,
        ephemeral,
        seed,
        now,
        outcome,
        x,
        sender_ids,
    );
    let message = Sealing { plaintext: payload, ad: sender_session.outgoing_ad(sender.1) };
    let y = Exchange { sent: x.sent.push(message), ..x };
    law_both_ends_use_the_same_ad(sender_session, recipient_session, sender.1, recipient.1);
    assert(y.expects(n));
    law_messages_are_read_back(
        y,
        n,
        outcome.0,
        recipient_session,
        recipient,
        sender_ids,
        chance,
        d3@,
    );
    let z = Exchange { log: y.log.push(Turn::Hear(n, chance)), ..y };
    assert(z.log.drop_last() =~= y.log);
    assert(z.heard() == x.heard().push(n));
    assert(outcome.1.ratchet == z.initiator());
}

/// As long as messages are decrypted in the order in which they were sent, the next one can be
/// decrypted, up to the limit of the ratchet, with nothing but the session.
pub proof fn law_messages_in_order_can_be_decrypted(x: Exchange)
    requires
        in_sequence(x.heard()),
        x.heard().len() == x.sent.len(),
        x.sent.len() < chain_limit(),
    ensures
        orderly(x.heard().push(x.sent.len())),
        chain_after(x.heard()).1 == Set::<int>::empty(),
{
    let y = Exchange {
        sent: x.sent.push(Sealing { plaintext: Seq::empty(), ad: Seq::empty() }),
        ..x
    };
    law_next_message_is_expected(y);
}

/// A reply is handed out as it was encrypted to the one who has started the session: the steps ask for
/// the session and for the identity key, decrypt, have the session saved, and end with exactly the bytes
/// that the replier has encrypted.
pub proof fn law_reply_is_handed_out(
    payload: Seq<u8>,
    x: Exchange,
    replier: (Seq<u8>, Seq<u8>),
    replier_session: Session,
    hearer: (Seq<u8>, Seq<u8>),
    hearer_session: Session,
    contact: Option<Contact>,
    ephemeral: Seq<u8>,
    seed: Seq<u8>,
    now: Result<u128, Seq<char>>,
    outcome: (Envelope, Session),
    replier_ids: (Seq<char>, Seq<char>),
    chance: Seq<u8>,
    d1: DecryptStep,
    d2: DecryptStep,
    d3: DecryptStep,
    d4: DecryptStep,
)
    requires
        x.valid(),
        x.log.len() > 0,
        replier_session.ratchet == x.responder(),
        hearer_session.ratchet == x.initiator(),
        replier_session.remote_identity == hearer.1,
        hearer_session.remote_identity == replier.1,
        orderly(x.replies_heard().push(x.replies().len())),
        chain_after(x.replies_heard()).1 == Set::<int>::empty() || received_count(
            hearer_session.ratchet,
        ) is Ok,
        encrypts_to(
            payload,
            replier,
            Some(replier_session),
            contact,
            ephemeral,
            seed,
            now,
            Ok(outcome),
        ),
        d1@ == first_stage(Ok(outcome.0), replier_ids),
        d1 matches DecryptStep::Session(s) ==> d2@ == s.next(Ok(Some(Ok(hearer_session)))),
        d2 matches DecryptStep::LocalIdentity(l) ==> {
            &&& d3@ == unwrapped(l.incoming@, l.session@, Ok(Some(hearer)), chance)
            &&& reads_back(l.incoming@, l.session@, hearer.1, d3@)
        },
        d3 matches DecryptStep::Save(s) ==> d4@ == s.next(Ok(())),
    ensures
        d1 is Session && d2 is LocalIdentity && d3 is Save,
        d3->Save_0.sender_id@ == replier_ids.0,
        d4 matches DecryptStep::Done(p) && p@ == payload,
{
    let j = x.replies().len();
    law_replies_join_the_exchange(
        payload,
        replier,
        replier_session,
        contact,
        ephemeral,
        seed,
        now,
        outcome,
        x,
        replier_ids,
    );
    let reply = Sealing { plaintext: payload, ad: replier_session.outgoing_ad(replier.1) };
    let y = Exchange { log: x.log.push(Turn::Reply(reply)), ..x };
    law_both_ends_use_the_same_ad(replier_session, hearer_session, replier.1, hearer.1);
    assert(y.expects_reply(j));
    law_replies_are_read_back(
        y,
        j,
        outcome.0,
        hearer_session,
        hearer,
        replier_ids,
        chance,
        d3@,
    );
}

// ---------------------------------------------------------------------------
// From client to client
// ---------------------------------------------------------------------------

/// From the bytes that a client is given to the event at the recipient, for a first message: what the
/// sender's steps encrypt to the keys that the server has sent for the recipient, the recipient's steps
/// hand out byte for byte, and the recipient's client is told of it in the name of the sender. In
/// particular a text comes out as the text that was sent.
pub proof fn law_first_message_arrives_as_it_was_given(
    user_id: Seq<char>,
    device_id: Seq<char>,
    addressee: Seq<char>,
    payload: Seq<u8>,
    sender: (Seq<u8>, Seq<u8>),
    sender_pre_key: (Seq<u8>, Seq<u8>),
    keys: Published,
    signature: Seq<u8>,
    reply: BundleResponse,
    ephemeral: Seq<u8>,
    seed: Seq<u8>,
    now: Result<u128, Seq<char>>,
    outcome: (Envelope, Session),
    message_id: Seq<char>,
    bytes: Seq<u8>,
    saved: Result<i64, Failure>,
    chance: Seq<u8>,
    r: (SendStep, SendStep, SendStep, SendStep, SendStep, SendStep),
    d1: DecryptStep,
    d2: DecryptStep,
    d3: DecryptStep,
    d4: DecryptStep,
    d5: DecryptStep,
    d6: DecryptStep,
    d7: DecryptStep,
)
    requires
        is_pair(sender),
        keys.valid(),
        reply_bundle(reply) == Ok::<Bundle, Failure>(keys.bundle(signature)),
        !user_id.contains('/') && !device_id.contains('/'),
        !reply.user_id@.contains('/') && !reply.device_id@.contains('/'),
        r.0@ == send_begun(Some(user_id), Some(device_id), addressee, payload),
        r.0 matches SendStep::IdentityKey(s) ==> r.1@ == s.next(Ok(Some(sender))),
        r.1 matches SendStep::Session(s) ==> r.2@ == s.next(Ok(None)),
        r.2 matches SendStep::SignedPreKey(s) ==> r.3@ == s.next(Ok(Some(sender_pre_key))),
        r.3 matches SendStep::Bundle(s) ==> r.4@ == s.next(Ok(reply)),
        r.4 matches SendStep::Seal(z) ==> {
            &&& encrypts_to(
                z.draft.payload@,
                pair_view(z.id_key),
                optional_session(z.existing),
                optional_contact(z.contact),
                ephemeral,
                seed,
                now,
                Ok(outcome),
            )
            &&& r.5@ == packed(z.draft@, Ok(outcome))
        },
        d1@ == first_stage(Ok(outcome.0), (user_id, device_id)),
        d1 matches DecryptStep::IdentityKey(s) ==> d2@ == s.next(Ok(Some(keys.identity))),
        d2 matches DecryptStep::SignedPreKey(s) ==> d3@ == s.next(Ok(Some(keys.signed_pre_key))),
        match d3 {
            DecryptStep::OneTimePreKey(s) => d4@ == s.next(
                Ok(
                    match keys.one_time {
                        Some(k) => Some(k.1),
                        None => None,
                    },
                ),
            ),
            _ => d4 == d3,
        },
        d4 matches DecryptStep::Agree(g) ==> {
            &&& d5@ == agreed(
                g.invitation@,
                g.identity_secret@,
                pair_view(g.signed_pre_key),
                secret_view(g.one_time_secret),
            )
            &&& answers(
                g.invitation@,
                g.identity_secret@,
                pair_view(g.signed_pre_key),
                secret_view(g.one_time_secret),
                d5@,
            )
        },
        d5 matches DecryptStep::LocalIdentity(l) ==> {
            &&& d6@ == unwrapped(l.incoming@, l.session@, Ok(Some(keys.identity)), chance)
            &&& reads_back(l.incoming@, l.session@, keys.identity.1, d6@)
        },
        d6 matches DecryptStep::Save(s) ==> d7@ == s.next(Ok(())),
    ensures
        d7 matches DecryptStep::Done(p) && p@ == payload,
        ({
            let topic = topic_text(reply.user_id@, reply.device_id@, user_id, device_id);
            let deeds = processing(taken_in(topic, bytes, saved), Some(Ok(payload)));
            &&& r.5 matches SendStep::SaveSession(s) && {
                &&& s.parcel.envelope@ == outcome.0
                &&& enqueued(s.parcel@, message_id) matches SendStage::Enqueue(to, id, t, e) && {
                    &&& to == reply.user_id@
                    &&& id == message_id
                    &&& t == topic
                    &&& e == outcome.0
                }
            }
            &&& deeds[0] == Deed::Decrypt((user_id, device_id), bytes)
            &&& deeds.last() == Deed::Emit(Signal::MessageReceived(user_id, payload))
        }),
        forall|text: Seq<char>|
            payload == #[trigger] framed(Message::Text { text }) ==> decoded(payload) == Ok::<
                Message,
                Fault,
            >(Message::Text { text }),
{
    let bundle = keys.bundle(signature);
    law_what_is_sealed_first_was_asked_for(
        user_id,
        device_id,
        addressee,
        payload,
        sender,
        sender_pre_key,
        reply,
        bundle,
        r.0,
        r.1,
        r.2,
        r.3,
        r.4,
    );
    let contact = Contact { user_id: reply.user_id@, device_id: reply.device_id@, bundle };
    assert(optional_contact(r.4->Seal_0.contact) == Some(contact));
    law_first_message_is_handed_out(
        payload,
        sender,
        keys,
        signature,
        contact,
        ephemeral,
        seed,
        now,
        outcome,
        (user_id, device_id),
        chance,
        d1,
        d2,
        d3,
        d4,
        d5,
        d6,
        d7,
    );
    law_delivery_names_the_sender(
        (reply.user_id@, reply.device_id@),
        (user_id, device_id),
        bytes,
        saved,
        payload,
    );
    assert forall|text: Seq<char>|
        payload == #[trigger] framed(Message::Text { text }) implies decoded(payload) == Ok::<
        Message,
        Fault,
    >(Message::Text { text }) by {
        law_decode_undoes_encode(Message::Text { text });
    }
}

/// From the bytes that a client is given to the event at the recipient, for a message in an existing
/// session that the sender has started: what the sender's steps encrypt, the recipient's steps hand out
/// byte for byte, and the recipient's client is told of it in the name of the sender.
pub proof fn law_further_message_arrives_as_it_was_given(
    user_id: Seq<char>,
    device_id: Seq<char>,
    addressee: Seq<char>,
    payload: Seq<u8>,
    x: Exchange,
    sender: (Seq<u8>, Seq<u8>),
    sender_session: Session,
    recipient: (Seq<u8>, Seq<u8>),
    recipient_session: Session,
    ephemeral: Seq<u8>,
    seed: Seq<u8>,
    now: Result<u128, Seq<char>>,
    outcome: (Envelope, Session),
    bytes: Seq<u8>,
    saved: Result<i64, Failure>,
    chance: Seq<u8>,
    r: (SendStep, SendStep, SendStep),
    d1: DecryptStep,
    d2: DecryptStep,
    d3: DecryptStep,
    d4: DecryptStep,
)
    requires
        x.valid(),
        x.hearing.len() == 0,
        sender_session.ratchet == x.initiator(),
        recipient_session.ratchet == x.responder(),
        sender_session.remote_identity == recipient.1,
        recipient_session.remote_identity == sender.1,
        orderly(x.heard().push(x.sent.len())),
        chain_after(x.heard()).1 == Set::<int>::empty() || received_count(
            recipient_session.ratchet,
        ) is Ok,
        !user_id.contains('/') && !device_id.contains('/'),
        !sender_session.remote_user_id.contains('/'),
        !sender_session.remote_device_id.contains('/'),
        r.0@ == send_begun(Some(user_id), Some(device_id), addressee, payload),
        r.0 matches SendStep::IdentityKey(s) ==> r.1@ == s.next(Ok(Some(sender))),
        r.1 matches SendStep::Session(s) ==> r.2@ == s.next(Ok(Some(Ok(sender_session)))),
        r.2 matches SendStep::Seal(z) ==> encrypts_to(
            z.draft.payload@,
            pair_view(z.id_key),
            optional_session(z.existing),
            optional_contact(z.contact),
            ephemeral,
            seed,
            now,
            Ok(outcome),
        ),
        d1@ == first_stage(Ok(outcome.0), (user_id, device_id)),
        d1 matches DecryptStep::Session(s) ==> d2@ == s.next(Ok(Some(Ok(recipient_session)))),
        d2 matches DecryptStep::LocalIdentity(l) ==> {
            &&& d3@ == unwrapped(l.incoming@, l.session@, Ok(Some(recipient)), chance)
            &&& reads_back(l.incoming@, l.session@, recipient.1, d3@)
        },
        d3 matches DecryptStep::Save(s) ==> d4@ == s.next(Ok(())),
    ensures
        d4 matches DecryptStep::Done(p) && p@ == payload,
        ({
            let topic = topic_text(
                sender_session.remote_user_id,
                sender_session.remote_device_id,
                user_id,
                device_id,
            );
            let deeds = processing(taken_in(topic, bytes, saved), Some(Ok(payload)));
            &&& outcome.1.remote_user_id == sender_session.remote_user_id
            &&& outcome.1.remote_device_id == sender_session.remote_device_id
            &&& deeds[0] == Deed::Decrypt((user_id, device_id), bytes)
            &&& deeds.last() == Deed::Emit(Signal::MessageReceived(user_id, payload))
        }),
{
    law_what_is_sealed_was_asked_for(
        user_id,
        device_id,
        addressee,
        payload,
        sender,
        sender_session,
        r.0,
        r.1,
        r.2,
    );
    law_further_message_is_handed_out(
        payload,
        x,
        sender,
        sender_session,
        recipient,
        recipient_session,
        None,
        ephemeral,
        seed,
        now,
        outcome,
        (user_id, device_id),
        chance,
        d1,
        d2,
        d3,
        d4,
    );
    law_delivery_names_the_sender(
        (sender_session.remote_user_id, sender_session.remote_device_id),
        (user_id, device_id),
        bytes,
        saved,
        payload,
    );
}

}
