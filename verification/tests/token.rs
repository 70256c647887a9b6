use specmesh_server::token::{
    parse_token, same_file_identity, validate_token_permissions, FileFacts, PathParts, TokenError,
    TokenFacts, TokenStep,
};

const TOKEN: &str = "AAAAAAAAAAAAAAAAAAAAAAAAAAAAAAAAAAAAAAAAAAA";

fn path(text: &str) -> PathParts {
    let mut components = Vec::new();
    if text.starts_with('/') {
        components.push(b"/".to_vec());
    }
    for part in text.split('/') {
        if !part.is_empty() {
            components.push(part.as_bytes().to_vec());
        }
    }
    PathParts {
        absolute: text.starts_with('/'),
        components,
    }
}

fn file() -> FileFacts {
    FileFacts {
        is_symlink: false,
        is_file: true,
        device: 1,
        inode: 2,
        mode: 0o100600,
    }
}

fn good() -> TokenFacts {
    TokenFacts {
        path: path("/keys/http-token"),
        workspace: path("/work"),
        inspected: Some(Ok(file())),
        opened: Some(Ok(())),
        open_inspected: Some(Ok(file())),
        rechecked: Some(Ok(file())),
        normalized: Some(Ok(path("/keys/http-token"))),
        contents: Some(Ok(TOKEN.as_bytes().to_vec())),
    }
}

fn refusal(facts: &TokenFacts) -> String {
    match facts.next() {
        TokenStep::Refuse(error) => {
            let message = error.message();
            assert!(!message.contains(TOKEN));
            message
        }
        _ => panic!("the file was not refused"),
    }
}

fn refusal_of(contents: &[u8]) -> String {
    let mut facts = good();
    facts.contents = Some(Ok(contents.to_vec()));
    refusal(&facts)
}

fn reason() -> String {
    String::from("reason")
}

#[test]
fn facts_are_found_out_one_after_the_other() {
    let mut facts = TokenFacts::new(path("/keys/http-token"), path("/work"));
    assert!(matches!(facts.next(), TokenStep::Inspect));
    facts.inspected = Some(Ok(file()));
    assert!(matches!(facts.next(), TokenStep::Open));
    facts.opened = Some(Ok(()));
    assert!(matches!(facts.next(), TokenStep::InspectOpen));
    facts.open_inspected = Some(Ok(file()));
    assert!(matches!(facts.next(), TokenStep::Recheck));
    facts.rechecked = Some(Ok(file()));
    assert!(matches!(facts.next(), TokenStep::Normalize));
    facts.normalized = Some(Ok(path("/keys/http-token")));
    assert!(matches!(facts.next(), TokenStep::Read));
    facts.contents = Some(Ok(TOKEN.as_bytes().to_vec()));
    match facts.next() {
        TokenStep::Accept(token) => assert_eq!(&token[..], TOKEN.as_bytes()),
        _ => panic!("the file was not accepted"),
    }
}

#[test]
fn relative_path_is_refused() {
    let facts = TokenFacts::new(path("relative-http-token"), path("/work"));
    assert_eq!(refusal(&facts), "--token-file must be an absolute path");
}

#[test]
fn file_that_cannot_be_worked_with_is_refused_with_the_reason() {
    let mut facts = good();
    facts.contents = Some(Err(reason()));
    assert_eq!(refusal(&facts), "cannot read --token-file: reason");
    facts.normalized = Some(Err(reason()));
    assert_eq!(refusal(&facts), "cannot normalize --token-file: reason");
    facts.rechecked = Some(Err(reason()));
    assert_eq!(refusal(&facts), "cannot recheck open --token-file: reason");
    facts.open_inspected = Some(Err(reason()));
    assert_eq!(refusal(&facts), "cannot inspect open --token-file: reason");
    facts.opened = Some(Err(reason()));
    assert_eq!(refusal(&facts), "cannot open --token-file: reason");
    facts.inspected = Some(Err(reason()));
    assert_eq!(refusal(&facts), "cannot inspect --token-file: reason");
}

#[test]
fn link_and_directory_are_refused() {
    let expected = "--token-file must name a regular, non-symbolic-link file";
    let mut facts = good();
    facts.inspected = Some(Ok(FileFacts { is_symlink: true, ..file() }));
    assert_eq!(refusal(&facts), expected);
    facts.inspected = Some(Ok(FileFacts { is_file: false, ..file() }));
    assert_eq!(refusal(&facts), expected);
}

#[test]
fn file_that_changes_while_it_is_opened_is_refused() {
    let mut facts = good();
    facts.open_inspected = Some(Ok(FileFacts { is_file: false, ..file() }));
    assert_eq!(
        refusal(&facts),
        "--token-file must remain a regular file while opening"
    );
    let expected = "--token-file identity changed while it was being opened";
    let changed = [
        FileFacts { is_symlink: true, ..file() },
        FileFacts { is_file: false, ..file() },
        FileFacts { device: 9, ..file() },
        FileFacts { inode: 9, ..file() },
    ];
    for file in changed {
        let mut facts = good();
        facts.rechecked = Some(Ok(file));
        assert_eq!(refusal(&facts), expected);
    }
}

#[test]
fn path_that_is_not_normalized_is_refused() {
    let mut facts = good();
    facts.path = path("/work/../keys/http-token");
    assert_eq!(
        refusal(&facts),
        "--token-file must already be a normalized absolute path"
    );
}

#[test]
fn file_inside_the_workspace_is_refused() {
    let mut facts = good();
    facts.workspace = path("/keys");
    let expected = "--token-file must be outside the bound Workspace";
    assert_eq!(refusal(&facts), expected);
    facts.workspace = path("/");
    assert_eq!(refusal(&facts), expected);
    facts.workspace = path("/key");
    assert!(matches!(facts.next(), TokenStep::Accept(_)));
    facts.workspace = path("/keys/http-token/below");
    assert!(matches!(facts.next(), TokenStep::Accept(_)));
}

#[test]
fn file_that_others_can_use_is_refused() {
    let expected =
        "--token-file must be owner-readable and grant no group or other permissions";
    for mode in [0o100640, 0o100604, 0o100601, 0o100610, 0o100000, 0o100200] {
        let mut facts = good();
        facts.open_inspected = Some(Ok(FileFacts { mode, ..file() }));
        assert_eq!(refusal(&facts), expected);
        assert!(matches!(
            validate_token_permissions(mode),
            Err(TokenError::Permissions)
        ));
    }
    for mode in [0o100400, 0o100600, 0o100700, 0o104400] {
        assert!(validate_token_permissions(mode).is_ok());
    }
}

#[test]
fn mode_of_the_open_file_is_the_one_that_counts() {
    let mut facts = good();
    facts.inspected = Some(Ok(FileFacts { mode: 0o100666, ..file() }));
    facts.rechecked = Some(Ok(FileFacts { mode: 0o100666, ..file() }));
    assert!(matches!(facts.next(), TokenStep::Accept(_)));
}

#[test]
fn contents_are_exactly_one_token() {
    let expected = "--token-file must contain exactly 43 ASCII base64url characters";
    assert_eq!(refusal_of(format!("{TOKEN}\n").as_bytes()), expected);
    assert_eq!(refusal_of(&TOKEN.as_bytes()[1..]), expected);
    assert_eq!(refusal_of(b""), expected);
    let mut bytes = TOKEN.as_bytes().to_vec();
    bytes[7] = 0x80;
    assert_eq!(refusal_of(&bytes), expected);
}

#[test]
fn contents_are_unpadded_base64url() {
    let expected = "--token-file content is not unpadded base64url";
    assert_eq!(refusal_of(format!("!{}", "A".repeat(42)).as_bytes()), expected);
    assert_eq!(refusal_of(format!("{}=", "A".repeat(42)).as_bytes()), expected);
    assert_eq!(refusal_of(format!("+{}", "A".repeat(42)).as_bytes()), expected);
    assert_eq!(refusal_of(format!("/{}", "A".repeat(42)).as_bytes()), expected);
    assert_eq!(refusal_of(format!("{}B", "A".repeat(42)).as_bytes()), expected);
    assert_eq!(refusal_of(format!("{}D", "A".repeat(42)).as_bytes()), expected);
}

#[test]
fn refusal_is_the_same_whatever_the_file_holds() {
    assert_eq!(refusal_of(b"first"), refusal_of(b"second, and longer than that"));
    assert_eq!(
        refusal_of("!".repeat(43).as_bytes()),
        refusal_of("?".repeat(43).as_bytes())
    );
}

#[test]
fn token_is_what_the_file_holds() {
    for text in [
        TOKEN,
        "__________________________________________8",
        "abcdefghijklmnopqrstuvwxyz0123456789-_ABCDE",
    ] {
        match parse_token(text.as_bytes()) {
            Ok(token) => assert_eq!(&token[..], text.as_bytes()),
            Err(error) => panic!("{}", error.message()),
        }
    }
}

#[test]
fn refusal_for_an_encoding_of_another_length_has_its_text() {
    assert_eq!(
        TokenError::DecodedLength.message(),
        "--token-file must encode exactly 32 bytes"
    );
}

#[test]
fn file_is_known_by_device_and_inode() {
    assert!(same_file_identity(&file(), &FileFacts { mode: 0, ..file() }));
    assert!(!same_file_identity(&file(), &FileFacts { inode: 3, ..file() }));
    assert!(!same_file_identity(&file(), &FileFacts { device: 3, ..file() }));
}
