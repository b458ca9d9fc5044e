use limbo::mojang::{
    auth_url, check_status, hash, session_query, AuthenticationError, AuthenticationResponse,
    PlayerProperty, AUTH_BASE_URL,
};

#[test]
fn session_hash_of_the_known_login() {
    assert_eq!(hash("", &[0u8; 16], &[0u8]), "-12db1ed7df0d06ff51c7c4833b0d4ce3bfd24e42");
    assert_eq!(hash("", &[], &[]), "-25c65c11a194b4f2cdaa40106a9fe76f5027f8f7");
}

#[test]
fn session_hash_of_known_names() {
    assert_eq!(hash("Notch", &[], &[]), "4ed1f46bbe04bc756bcb17c0c7ce3e4632f06a48");
    assert_eq!(hash("jeb_", &[], &[]), "-7c9d5b0044c130109a5d7b5fb5c317c02b4e28c1");
    assert_eq!(hash("simon", &[], &[]), "88e16a1019277b15d58faf0541e11910eb756f6");
}

#[test]
fn session_hash_takes_its_parts_in_order() {
    assert_eq!(hash("ab", &[b'c'], &[b'd']), hash("", &[b'a', b'b'], &[b'c', b'd']));
    assert_eq!(hash("", &[], b"Notch"), "4ed1f46bbe04bc756bcb17c0c7ce3e4632f06a48");
    assert_ne!(hash("", &[1], &[2]), hash("", &[2], &[1]));
}

#[test]
fn the_query_names_the_player_and_the_hash() {
    assert_eq!(
        auth_url("Notch", "abc"),
        "https://sessionserver.mojang.com/session/minecraft/hasJoined?username=Notch&serverId=abc"
    );
    assert!(auth_url("a", "b").starts_with(AUTH_BASE_URL));
    assert_eq!(
        session_query("", &[0u8; 16], &[0u8], "Notch"),
        format!(
            "{}?username=Notch&serverId=-12db1ed7df0d06ff51c7c4833b0d4ce3bfd24e42",
            AUTH_BASE_URL
        )
    );
}

#[test]
fn only_status_200_confirms_a_session() {
    assert_eq!(check_status(200), Ok(()));
    assert_eq!(check_status(204), Err(AuthenticationError::InvalidSession));
    assert_eq!(check_status(403), Err(AuthenticationError::InvalidSession));
    assert_eq!(check_status(0), Err(AuthenticationError::InvalidSession));
    assert_ne!(AuthenticationError::Request, AuthenticationError::Deserialization);
}

#[test]
fn a_response_holds_identity_and_properties() {
    let response = AuthenticationResponse {
        id: 7,
        properties: vec![PlayerProperty {
            name: "textures".to_string(),
            value: "e30=".to_string(),
            signature: None,
        }],
    };
    assert_eq!(response.clone(), response);
    assert_eq!(response.properties[0].name, "textures");
}
