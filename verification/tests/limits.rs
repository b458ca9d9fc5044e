use limbo::connection::{Connection, MAX_PACKET_LENGTH};
use limbo::error::{FieldWriteError, SendError, WriteError};
use limbo::frame::{stage_compressed_packet_into, stage_packet_into};
use limbo::io::VarIntPrefixedVec;
use limbo::packets::server::login::{EncryptionRequest, ServerLoginPacket};
use limbo::packets::server::ServerPacket;
use limbo::session::{perform, Action, PacketProcessingError};
use limbo::text::{write_prefixed, MAX_LENGTH};

fn too_long() -> Vec<u8> {
    vec![0u8; MAX_LENGTH + 1]
}

#[test]
fn a_length_prefix_carries_at_most_a_signed_word() {
    assert_eq!(MAX_LENGTH, i32::MAX as usize);
    let bytes = too_long();
    let mut out = vec![7];
    assert_eq!(write_prefixed(&mut out, &bytes), Err(FieldWriteError::LengthOverflow));
    assert_eq!(out, vec![7]);
    let mut staged = vec![7];
    assert_eq!(
        stage_packet_into(&mut staged, &bytes),
        Err(SendError::PacketLength(FieldWriteError::LengthOverflow))
    );
    assert_eq!(staged, vec![7]);
    assert_eq!(
        stage_compressed_packet_into(&mut staged, &bytes, usize::MAX),
        Err(SendError::PacketLength(FieldWriteError::LengthOverflow))
    );
    assert_eq!(staged, vec![7]);
}

#[test]
fn a_field_that_is_too_long_is_named() {
    let packet = ServerPacket::Login(ServerLoginPacket::EncryptionRequest(EncryptionRequest {
        server_id: String::new(),
        public_key: VarIntPrefixedVec(too_long()),
        verify_token: VarIntPrefixedVec(vec![1, 2, 3, 4]),
    }));
    let error = WriteError::Field("public_key", FieldWriteError::LengthOverflow);
    let mut out = Vec::new();
    assert_eq!(packet.encode_to(&mut out), Err(error));

    let mut connection = Connection::new(MAX_PACKET_LENGTH);
    assert_eq!(connection.write_packet(&packet), Err(SendError::Encode(error)));

    let pong = limbo::session::keep_alive();
    let actions = vec![Action::Send(pong), Action::Send(packet), Action::Joined];
    let mut wire = Vec::new();
    assert_eq!(
        perform(&mut connection, &actions, &mut wire),
        Err(PacketProcessingError::Send(SendError::Encode(error)))
    );
    assert_eq!(wire, vec![9, 0x21, 0, 0, 0, 0, 0, 0, 0, 0]);
}
