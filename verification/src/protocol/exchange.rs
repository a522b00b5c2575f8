//! The two handshake machines run against each other.

use vstd::prelude::*;

use crate::cypher::transform;
use crate::keys_generator::keys::KeyView;
use crate::protocol::client::handshake::validate::{
    client_start, client_step, ClientOutput, ClientPhase, ClientView,
};
use crate::protocol::server::handshake::send::sealed_key;
use crate::protocol::server::handshake::validate::{
    ok_frame, server_start, server_step, ServerOutput, ServerPhase, ServerView,
};
use crate::protocol::shared::codec::{encodable, lemma_parse_record_of_record, record};
use crate::protocol::shared::types::Frame;
use crate::protocol::shared::wire::CodecError;

verus! {

/// The cipher undoes itself on `data`: what `public` encrypts, `private`
/// decrypts to the same bytes. Raw exponentiation does so only for data
/// whose chunks are numbers below the modulus without leading zero bytes,
/// and whose encrypted chunks fill a whole chunk each.
pub open spec fn opens_what_it_seals(public: KeyView, private: KeyView, data: Seq<u8>) -> bool {
    transform(transform(data, public.e(), public.n()), private.e(), private.n()) == data
}

/// An honest run. When both sides follow the protocol, each frame reaches
/// the other side as it was sent, and the cipher undoes itself on the
/// server's key record and on the master password, then the handshake takes
/// six frames in this order: the client's hello, the server's hello, the
/// client's public key, the server's encrypted key, the encrypted master
/// password, and the verdict "OK". Both sides end done, each holds the
/// other's public key, and both have the same master password: the client's
/// hello followed by the server's.
pub proof fn lemma_honest_handshake(
    client_public: KeyView,
    client_private: KeyView,
    server_public: KeyView,
    server_private: KeyView,
    client_hello: Seq<u8>,
    server_hello: Seq<u8>,
)
    requires
        client_hello.len() == 12,
        server_hello.len() == 12,
        client_public.n() != 0,
        client_private.n() != 0,
        server_public.n() != 0,
        server_private.n() != 0,
        encodable(Frame::SharingPubKey { key: server_public }),
        opens_what_it_seals(
            client_public,
            client_private,
            record(Frame::SharingPubKey { key: server_public }),
        ),
        opens_what_it_seals(server_public, server_private, client_hello + server_hello),
    ensures
        ({
            let master = client_hello + server_hello;
            let (client_0, frame_1) = client_start(client_public, client_private, client_hello);
            let server_0 = server_start(server_public, server_private, server_hello);
            let (server_1, output_2) = server_step(server_0, Ok(frame_1));
            let frame_2 = Frame::HelloServer { nonce: server_hello };
            let (client_1, output_3) = client_step(client_0, Ok(frame_2));
            let frame_3 = Frame::SharingPubKey { key: client_public };
            let (server_2, output_4) = server_step(server_1, Ok(frame_3));
            let frame_4 = Frame::SharingCryptedPubKey {
                ciphertext: sealed_key(server_public, client_public),
            };
            let (client_2, output_5) = client_step(client_1, Ok(frame_4));
            let frame_5 = Frame::KeysValidated {
                ciphertext: transform(master, server_public.e(), server_public.n()),
            };
            let (server_3, output_6) = server_step(server_2, Ok(frame_5));
            let (client_3, output_7) = client_step(client_2, Ok(ok_frame()));
            &&& frame_1 == Frame::HelloClient { nonce: client_hello }
            &&& output_2 == ServerOutput::Send(frame_2)
            &&& output_3 == ClientOutput::Send(frame_3)
            &&& output_4 == ServerOutput::Send(frame_4)
            &&& output_5 == ClientOutput::Send(frame_5)
            &&& output_6 == ServerOutput::Accept(ok_frame())
            &&& output_7 == ClientOutput::Done
            &&& server_3.phase == ServerPhase::Done
            &&& client_3.phase == ClientPhase::Done
            &&& server_3.client_key == Some(client_public)
            &&& client_3.server_key == Some(server_public)
            &&& server_3.master() == master
            &&& client_3.master() == master
        }),
{
    let master = client_hello + server_hello;
    assert(master.len() == 24);
    let (client_0, frame_1) = client_start(client_public, client_private, client_hello);
    let server_0 = server_start(server_public, server_private, server_hello);
    let (server_1, output_2) = server_step(server_0, Ok(frame_1));
    let frame_2 = Frame::HelloServer { nonce: server_hello };
    assert(output_2 == ServerOutput::Send(frame_2));
    assert(server_1.phase == ServerPhase::AwaitPubKey);
    assert(server_1.master() == master);
    let (client_1, output_3) = client_step(client_0, Ok(frame_2));
    let frame_3 = Frame::SharingPubKey { key: client_public };
    assert(output_3 == ClientOutput::Send(frame_3));
    assert(client_1.phase == ClientPhase::SentPubKey);
    assert(client_1.master() == master);
    let (server_2, output_4) = server_step(server_1, Ok(frame_3));
    let sealed = sealed_key(server_public, client_public);
    let frame_4 = Frame::SharingCryptedPubKey { ciphertext: sealed };
    assert(output_4 == ServerOutput::Send(frame_4));
    assert(server_2.phase == ServerPhase::AwaitNonce);
    assert(server_2.master() == master);
    assert(server_2.private == server_private);
    let opened = transform(sealed, client_private.e(), client_private.n());
    assert(opened == record(Frame::SharingPubKey { key: server_public }));
    lemma_parse_record_of_record(Frame::SharingPubKey { key: server_public });
    let (client_2, output_5) = client_step(client_1, Ok(frame_4));
    let frame_5 = Frame::KeysValidated {
        ciphertext: transform(master, server_public.e(), server_public.n()),
    };
    assert(output_5 == ClientOutput::Send(frame_5));
    assert(client_2.phase == ClientPhase::SentNonce);
    assert(client_2.server_key == Some(server_public));
    assert(client_2.master() == master);
    let (server_3, output_6) = server_step(server_2, Ok(frame_5));
    assert(output_6 == ServerOutput::Accept(ok_frame()));
    let (client_3, output_7) = client_step(client_2, Ok(ok_frame()));
    assert(output_7 == ClientOutput::Done);
}

/// The master password is the same on both sides as soon as each has the
/// other's hello: the client's hello followed by the server's.
pub proof fn lemma_same_master(
    client_public: KeyView,
    client_private: KeyView,
    server_public: KeyView,
    server_private: KeyView,
    client_hello: Seq<u8>,
    server_hello: Seq<u8>,
)
    ensures
        ({
            let (client_0, frame_1) = client_start(client_public, client_private, client_hello);
            let server_0 = server_start(server_public, server_private, server_hello);
            let server_1 = server_step(server_0, Ok(frame_1)).0;
            let client_1 = client_step(
                client_0,
                Ok(Frame::HelloServer { nonce: server_hello }),
            ).0;
            &&& server_1.master() == client_hello + server_hello
            &&& client_1.master() == client_hello + server_hello
        }),
{
}

/// The verdict goes out once: a server sends a verdict only in answer to
/// what arrives while it awaits the master password, and that step ends the
/// handshake, after which it sends nothing.
pub proof fn lemma_verdict_once(state: ServerView, input: Result<Frame, CodecError>)
    ensures
        ({
            let (next, output) = server_step(state, input);
            &&& output is Accept || output is Reject <==> state.phase is AwaitNonce
            &&& output is Accept || output is Reject ==> next.phase is Done || next.phase is Failed
            &&& state.phase is Done || state.phase is Failed ==> next == state && (output is Done
                || output is Fail)
        }),
{
}

/// The hellos go out once: the server sends its hello only in answer to the
/// client's, and leaves that phase with it; the client sends its hello when
/// it starts and never in a step.
pub proof fn lemma_hello_once(
    client: ClientView,
    server: ServerView,
    input: Result<Frame, CodecError>,
)
    ensures
        !(client_step(client, input).1 matches ClientOutput::Send(frame) && frame is HelloClient),
        server_step(server, input).1 matches ServerOutput::Send(frame) && frame is HelloServer
            ==> server.phase is AwaitHello && server_step(server, input).0.phase is AwaitPubKey,
{
}

} // verus!
