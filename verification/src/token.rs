//! The token file: which file is taken, in which order that is found out, and what it must hold.

use crate::auth::TOKEN_TEXT_LEN;
use crate::text::equal;
use base64::engine::general_purpose::URL_SAFE_NO_PAD;
use base64::Engine;
use vstd::prelude::*;
use vstd::string::StringExecFns;

verus! {

/// How many bytes a token encodes.
pub const TOKEN_DECODED_LEN: usize = 32;

/// `base64::DecodeError`, why a text is not base64; opaque to the verifier.
#[verifier::external_type_specification]
#[verifier::external_body]
pub struct ExDecodeError(base64::DecodeError);

/// The value of a character of the base64url alphabet, and -1 for any other byte.
pub open spec fn sextet(byte: u8) -> int {
    if 0x41 <= byte <= 0x5a {
        byte - 0x41
    } else if 0x61 <= byte <= 0x7a {
        byte - 0x61 + 26
    } else if 0x30 <= byte <= 0x39 {
        byte - 0x30 + 52
    } else if byte == 0x2d {
        62
    } else if byte == 0x5f {
        63
    } else {
        -1
    }
}

/// The text is unpadded base64url: characters of the alphabet, of a length that whole bytes have,
/// and with no bit set after the last whole byte.
pub open spec fn is_base64url(text: Seq<u8>) -> bool {
    &&& forall|i: int| 0 <= i < text.len() ==> sextet(#[trigger] text[i]) >= 0
    &&& text.len() % 4 != 1
    &&& text.len() % 4 == 2 ==> sextet(text.last()) % 16 == 0
    &&& text.len() % 4 == 3 ==> sextet(text.last()) % 4 == 0
}

/// The byte at `i` of what the text encodes: eight bits out of two neighbouring characters.
pub open spec fn decoded_byte(text: Seq<u8>, i: int) -> int {
    let pair = sextet(text[8 * i / 6]) * 64 + sextet(text[8 * i / 6 + 1]);
    if i % 3 == 0 {
        pair / 16 % 256
    } else if i % 3 == 1 {
        pair / 4 % 256
    } else {
        pair % 256
    }
}

/// Calls `decode` of `base64::Engine` on the engine `URL_SAFE_NO_PAD`.
///
/// Trusted: it decodes exactly the texts in unpadded base64url, three bytes for every four
/// characters, and gives back the bytes that they encode.
#[verifier::external_body]
fn decode_base64url(text: &[u8]) -> (decoded: Result<Vec<u8>, base64::DecodeError>)
    ensures
        decoded is Ok <==> is_base64url(text@),
        decoded matches Ok(bytes) ==> {
            &&& bytes@.len() == text@.len() * 3 / 4
            &&& forall|i: int|
                0 <= i < bytes@.len() ==> #[trigger] bytes@[i] == decoded_byte(text@, i)
        },
{
    URL_SAFE_NO_PAD.decode(text)
}

/// A path, as its components in order, where the root counts as one.
pub struct PathParts {
    pub absolute: bool,
    pub components: Vec<Vec<u8>>,
}

pub struct PathPartsView {
    pub absolute: bool,
    pub components: Seq<Seq<u8>>,
}

impl View for PathParts {
    type V = PathPartsView;

    open spec fn view(&self) -> PathPartsView {
        PathPartsView {
            absolute: self.absolute,
            components: self.components@.map_values(|component: Vec<u8>| component@),
        }
    }
}

/// What is known of a file from its metadata.
#[derive(Clone, Copy, Debug, PartialEq, Eq, Structural)]
pub struct FileFacts {
    pub is_symlink: bool,
    pub is_file: bool,
    pub device: u64,
    pub inode: u64,
    /// The permission bits.
    pub mode: u32,
}

/// A regular file, and not a symbolic link to one.
pub open spec fn is_plain_file(facts: FileFacts) -> bool {
    !facts.is_symlink && facts.is_file
}

/// The two are one and the same file.
pub open spec fn is_same_file(left: FileFacts, right: FileFacts) -> bool {
    left.device == right.device && left.inode == right.inode
}

/// The owner can read the file, and nobody else can do anything with it.
pub open spec fn is_private(mode: u32) -> bool {
    mode & 0o400 != 0 && mode & 0o077 == 0
}

/// The path lies at or below the other.
pub open spec fn lies_in(path: PathPartsView, directory: PathPartsView) -> bool {
    directory.components.is_prefix_of(path.components)
}

/// Why a token file is refused. What the file holds is never part of it.
pub enum TokenError {
    NotAbsolute,
    /// The path could not be inspected, for the reason given.
    Inspect(String),
    NotRegular,
    Open(String),
    InspectOpen(String),
    NotRegularOpen,
    Recheck(String),
    IdentityChanged,
    Normalize(String),
    NotNormalized,
    InsideWorkspace,
    Permissions,
    Read(String),
    TextLength,
    NotBase64,
    DecodedLength,
}

/// What a refusal says.
pub open spec fn refusal_text(error: TokenError) -> Seq<char> {
    match error {
        TokenError::NotAbsolute => "--token-file must be an absolute path"@,
        TokenError::Inspect(reason) => "cannot inspect --token-file: "@ + reason@,
        TokenError::NotRegular =>
            "--token-file must name a regular, non-symbolic-link file"@,
        TokenError::Open(reason) => "cannot open --token-file: "@ + reason@,
        TokenError::InspectOpen(reason) => "cannot inspect open --token-file: "@ + reason@,
        TokenError::NotRegularOpen =>
            "--token-file must remain a regular file while opening"@,
        TokenError::Recheck(reason) => "cannot recheck open --token-file: "@ + reason@,
        TokenError::IdentityChanged =>
            "--token-file identity changed while it was being opened"@,
        TokenError::Normalize(reason) => "cannot normalize --token-file: "@ + reason@,
        TokenError::NotNormalized =>
            "--token-file must already be a normalized absolute path"@,
        TokenError::InsideWorkspace => "--token-file must be outside the bound Workspace"@,
        TokenError::Permissions =>
            "--token-file must be owner-readable and grant no group or other permissions"@,
        TokenError::Read(reason) => "cannot read --token-file: "@ + reason@,
        TokenError::TextLength =>
            "--token-file must contain exactly 43 ASCII base64url characters"@,
        TokenError::NotBase64 => "--token-file content is not unpadded base64url"@,
        TokenError::DecodedLength => "--token-file must encode exactly 32 bytes"@,
    }
}

fn with_reason(text: &str, reason: &String) -> (message: String)
    ensures
        message@ == text@ + reason@,
{
    let mut message = String::from_str(text);
    message.append(reason.as_str());
    message
}

impl TokenError {
    /// What a refusal says.
    pub fn message(&self) -> (message: String)
        ensures
            message@ == refusal_text(*self),
    {
        match self {
            TokenError::NotAbsolute => String::from_str("--token-file must be an absolute path"),
            TokenError::Inspect(reason) => with_reason("cannot inspect --token-file: ", reason),
            TokenError::NotRegular => String::from_str(
                "--token-file must name a regular, non-symbolic-link file",
            ),
            TokenError::Open(reason) => with_reason("cannot open --token-file: ", reason),
            TokenError::InspectOpen(reason) => with_reason(
                "cannot inspect open --token-file: ",
                reason,
            ),
            TokenError::NotRegularOpen => String::from_str(
                "--token-file must remain a regular file while opening",
            ),
            TokenError::Recheck(reason) => with_reason(
                "cannot recheck open --token-file: ",
                reason,
            ),
            TokenError::IdentityChanged => String::from_str(
                "--token-file identity changed while it was being opened",
            ),
            TokenError::Normalize(reason) => with_reason("cannot normalize --token-file: ", reason),
            TokenError::NotNormalized => String::from_str(
                "--token-file must already be a normalized absolute path",
            ),
            TokenError::InsideWorkspace => String::from_str(
                "--token-file must be outside the bound Workspace",
            ),
            TokenError::Permissions => String::from_str(
                "--token-file must be owner-readable and grant no group or other permissions",
            ),
            TokenError::Read(reason) => with_reason("cannot read --token-file: ", reason),
            TokenError::TextLength => String::from_str(
                "--token-file must contain exactly 43 ASCII base64url characters",
            ),
            TokenError::NotBase64 => String::from_str(
                "--token-file content is not unpadded base64url",
            ),
            TokenError::DecodedLength => String::from_str(
                "--token-file must encode exactly 32 bytes",
            ),
        }
    }
}

/// Whether two files are one and the same.
pub fn same_file_identity(left: &FileFacts, right: &FileFacts) -> (same: bool)
    ensures
        same == is_same_file(*left, *right),
{
    left.device == right.device && left.inode == right.inode
}

/// Refuses a mode that keeps the owner from reading, or lets anybody else in.
pub fn validate_token_permissions(mode: u32) -> (verdict: Result<(), TokenError>)
    ensures
        match verdict {
            Ok(()) => is_private(mode),
            Err(error) => !is_private(mode) && error == TokenError::Permissions,
        },
{
    if mode & 0o400 == 0 || mode & 0o077 != 0 {
        return Err(TokenError::Permissions);
    }
    Ok(())
}

fn starts_with(components: &Vec<Vec<u8>>, prefix: &Vec<Vec<u8>>) -> (yes: bool)
    ensures
        yes == prefix@.map_values(|component: Vec<u8>| component@).is_prefix_of(
            components@.map_values(|component: Vec<u8>| component@),
        ),
{
    let ghost whole = components@.map_values(|component: Vec<u8>| component@);
    let ghost part = prefix@.map_values(|component: Vec<u8>| component@);
    if prefix.len() > components.len() {
        return false;
    }
    for i in 0..prefix.len()
        invariant
            whole == components@.map_values(|component: Vec<u8>| component@),
            part == prefix@.map_values(|component: Vec<u8>| component@),
            prefix@.len() <= components@.len(),
            forall|j: int| 0 <= j < i ==> part[j] == whole[j],
    {
        if !equal(components[i].as_slice(), prefix[i].as_slice()) {
            assert(part[i as int] != whole[i as int]);
            assert(whole.subrange(0, part.len() as int)[i as int] == whole[i as int]);
            return false;
        }
        assert(part[i as int] == whole[i as int]);
    }
    assert(part =~= whole.subrange(0, part.len() as int));
    true
}

fn same_path(left: &PathParts, right: &PathParts) -> (same: bool)
    ensures
        same == (left@.components == right@.components),
{
    if left.components.len() != right.components.len() {
        return false;
    }
    let same = starts_with(&left.components, &right.components);
    assert(left@.components.subrange(0, left@.components.len() as int) =~= left@.components);
    same
}

/// Every byte is ASCII.
pub open spec fn is_ascii_text(text: Seq<u8>) -> bool {
    forall|i: int| 0 <= i < text.len() ==> #[trigger] text[i] < 0x80
}

/// What to make of the contents of a token file: the token, or why it is none.
pub open spec fn token_verdict(contents: Seq<u8>) -> Result<Seq<u8>, TokenError> {
    if contents.len() != TOKEN_TEXT_LEN || !is_ascii_text(contents) {
        Err(TokenError::TextLength)
    } else if !is_base64url(contents) {
        Err(TokenError::NotBase64)
    } else {
        Ok(contents)
    }
}

fn is_ascii(text: &[u8]) -> (ascii: bool)
    ensures
        ascii == is_ascii_text(text@),
{
    for i in 0..text.len()
        invariant
            forall|j: int| 0 <= j < i ==> #[trigger] text@[j] < 0x80,
    {
        if text[i] >= 0x80 {
            return false;
        }
    }
    true
}

/// Reads the token out of the contents of a token file.
pub fn parse_token(contents: &[u8]) -> (verdict: Result<[u8; TOKEN_TEXT_LEN], TokenError>)
    ensures
        match verdict {
            Ok(token) => token_verdict(contents@) == Ok::<Seq<u8>, TokenError>(token@),
            Err(error) => token_verdict(contents@) == Err::<Seq<u8>, TokenError>(error),
        },
{
    if contents.len() != TOKEN_TEXT_LEN || !is_ascii(contents) {
        return Err(TokenError::TextLength);
    }
    match decode_base64url(contents) {
        Ok(decoded) => if decoded.len() != TOKEN_DECODED_LEN {
            return Err(TokenError::DecodedLength);
        },
        Err(_) => {
            return Err(TokenError::NotBase64);
        },
    }
    let mut token: [u8; TOKEN_TEXT_LEN] = [0; TOKEN_TEXT_LEN];
    for i in 0..TOKEN_TEXT_LEN
        invariant
            contents@.len() == TOKEN_TEXT_LEN,
            forall|j: int| 0 <= j < i ==> token@[j] == contents@[j],
    {
        token[i] = contents[i];
    }
    assert(token@ =~= contents@);
    Ok(token)
}

/// What has been found out of a token file so far. Each fact is there once the step that asks for
/// it has been taken: what came of it, or for what reason nothing did.
pub struct TokenFacts {
    pub path: PathParts,
    pub workspace: PathParts,
    /// The metadata at the path, without following a link.
    pub inspected: Option<Result<FileFacts, String>>,
    pub opened: Option<Result<(), String>>,
    /// The metadata of the open file.
    pub open_inspected: Option<Result<FileFacts, String>>,
    /// The metadata at the path once the file was open.
    pub rechecked: Option<Result<FileFacts, String>>,
    /// The path in canonical form.
    pub normalized: Option<Result<PathParts, String>>,
    /// What the open file holds, up to one byte more than a token has.
    pub contents: Option<Result<Vec<u8>, String>>,
}

/// What to do next with a token file.
pub enum TokenStep {
    Inspect,
    Open,
    InspectOpen,
    Recheck,
    Normalize,
    Read,
    Accept([u8; TOKEN_TEXT_LEN]),
    Refuse(TokenError),
}

pub enum TokenStepView {
    Inspect,
    Open,
    InspectOpen,
    Recheck,
    Normalize,
    Read,
    Accept(Seq<u8>),
    Refuse(TokenError),
}

impl View for TokenStep {
    type V = TokenStepView;

    open spec fn view(&self) -> TokenStepView {
        match self {
            TokenStep::Inspect => TokenStepView::Inspect,
            TokenStep::Open => TokenStepView::Open,
            TokenStep::InspectOpen => TokenStepView::InspectOpen,
            TokenStep::Recheck => TokenStepView::Recheck,
            TokenStep::Normalize => TokenStepView::Normalize,
            TokenStep::Read => TokenStepView::Read,
            TokenStep::Accept(token) => TokenStepView::Accept(token@),
            TokenStep::Refuse(error) => TokenStepView::Refuse(*error),
        }
    }
}

/// The next step, decided from the facts in the order in which they are found out: the first fact
/// that is missing is asked for, and the first that does not do refuses the file.
pub open spec fn next_step(facts: TokenFacts) -> TokenStepView {
    if !facts.path@.absolute {
        TokenStepView::Refuse(TokenError::NotAbsolute)
    } else {
        match facts.inspected {
            None => TokenStepView::Inspect,
            Some(Err(reason)) => TokenStepView::Refuse(TokenError::Inspect(reason)),
            Some(Ok(file)) => if !is_plain_file(file) {
                TokenStepView::Refuse(TokenError::NotRegular)
            } else {
                step_after_inspection(facts)
            },
        }
    }
}

pub open spec fn step_after_inspection(facts: TokenFacts) -> TokenStepView {
    match facts.opened {
        None => TokenStepView::Open,
        Some(Err(reason)) => TokenStepView::Refuse(TokenError::Open(reason)),
        Some(Ok(())) => match facts.open_inspected {
            None => TokenStepView::InspectOpen,
            Some(Err(reason)) => TokenStepView::Refuse(TokenError::InspectOpen(reason)),
            Some(Ok(open)) => if !open.is_file {
                TokenStepView::Refuse(TokenError::NotRegularOpen)
            } else {
                step_after_open(facts, open)
            },
        },
    }
}

pub open spec fn step_after_open(facts: TokenFacts, open: FileFacts) -> TokenStepView {
    match facts.rechecked {
        None => TokenStepView::Recheck,
        Some(Err(reason)) => TokenStepView::Refuse(TokenError::Recheck(reason)),
        Some(Ok(file)) => if !is_plain_file(file) || !is_same_file(file, open) {
            TokenStepView::Refuse(TokenError::IdentityChanged)
        } else {
            step_after_recheck(facts, open)
        },
    }
}

pub open spec fn step_after_recheck(facts: TokenFacts, open: FileFacts) -> TokenStepView {
    match facts.normalized {
        None => TokenStepView::Normalize,
        Some(Err(reason)) => TokenStepView::Refuse(TokenError::Normalize(reason)),
        Some(Ok(path)) => if path@.components != facts.path@.components {
            TokenStepView::Refuse(TokenError::NotNormalized)
        } else if lies_in(path@, facts.workspace@) {
            TokenStepView::Refuse(TokenError::InsideWorkspace)
        } else if !is_private(open.mode) {
            TokenStepView::Refuse(TokenError::Permissions)
        } else {
            step_after_checks(facts)
        },
    }
}

pub open spec fn step_after_checks(facts: TokenFacts) -> TokenStepView {
    match facts.contents {
        None => TokenStepView::Read,
        Some(Err(reason)) => TokenStepView::Refuse(TokenError::Read(reason)),
        Some(Ok(contents)) => match token_verdict(contents@) {
            Ok(token) => TokenStepView::Accept(token),
            Err(error) => TokenStepView::Refuse(error),
        },
    }
}

impl TokenFacts {
    /// Nothing is known yet but the two paths.
    pub fn new(path: PathParts, workspace: PathParts) -> (facts: TokenFacts)
        ensures
            facts == (TokenFacts {
                path,
                workspace,
                inspected: None,
                opened: None,
                open_inspected: None,
                rechecked: None,
                normalized: None,
                contents: None,
            }),
    {
        TokenFacts {
            path,
            workspace,
            inspected: None,
            opened: None,
            open_inspected: None,
            rechecked: None,
            normalized: None,
            contents: None,
        }
    }

    /// What to do next: find out one fact more, take the token, or refuse the file.
    pub fn next(&self) -> (step: TokenStep)
        ensures
            step@ == next_step(*self),
    {
        if !self.path.absolute {
            return TokenStep::Refuse(TokenError::NotAbsolute);
        }
        match &self.inspected {
            None => TokenStep::Inspect,
            Some(Err(reason)) => TokenStep::Refuse(TokenError::Inspect(reason.clone())),
            Some(Ok(file)) => if file.is_symlink || !file.is_file {
                TokenStep::Refuse(TokenError::NotRegular)
            } else {
                self.after_inspection()
            },
        }
    }

    fn after_inspection(&self) -> (step: TokenStep)
        ensures
            step@ == step_after_inspection(*self),
    {
        match &self.opened {
            None => TokenStep::Open,
            Some(Err(reason)) => TokenStep::Refuse(TokenError::Open(reason.clone())),
            Some(Ok(())) => match &self.open_inspected {
                None => TokenStep::InspectOpen,
                Some(Err(reason)) => TokenStep::Refuse(TokenError::InspectOpen(reason.clone())),
                Some(Ok(open)) => if !open.is_file {
                    TokenStep::Refuse(TokenError::NotRegularOpen)
                } else {
                    self.after_open(open)
                },
            },
        }
    }

    fn after_open(&self, open: &FileFacts) -> (step: TokenStep)
        ensures
            step@ == step_after_open(*self, *open),
    {
        match &self.rechecked {
            None => TokenStep::Recheck,
            Some(Err(reason)) => TokenStep::Refuse(TokenError::Recheck(reason.clone())),
            Some(Ok(file)) => if file.is_symlink || !file.is_file || !same_file_identity(
                file,
                open,
            ) {
                TokenStep::Refuse(TokenError::IdentityChanged)
            } else {
                self.after_recheck(open)
            },
        }
    }

    fn after_recheck(&self, open: &FileFacts) -> (step: TokenStep)
        ensures
            step@ == step_after_recheck(*self, *open),
    {
        match &self.normalized {
            None => TokenStep::Normalize,
            Some(Err(reason)) => TokenStep::Refuse(TokenError::Normalize(reason.clone())),
            Some(Ok(path)) => {
                if !same_path(path, &self.path) {
                    return TokenStep::Refuse(TokenError::NotNormalized);
                }
                if starts_with(&path.components, &self.workspace.components) {
                    return TokenStep::Refuse(TokenError::InsideWorkspace);
                }
                match validate_token_permissions(open.mode) {
                    Err(error) => TokenStep::Refuse(error),
                    Ok(()) => self.after_checks(),
                }
            },
        }
    }

    fn after_checks(&self) -> (step: TokenStep)
        ensures
            step@ == step_after_checks(*self),
    {
        match &self.contents {
            None => TokenStep::Read,
            Some(Err(reason)) => TokenStep::Refuse(TokenError::Read(reason.clone())),
            Some(Ok(contents)) => match parse_token(contents.as_slice()) {
                Ok(token) => TokenStep::Accept(token),
                Err(error) => TokenStep::Refuse(error),
            },
        }
    }
}

/// Every fact is known.
pub open spec fn is_complete(facts: TokenFacts) -> bool {
    &&& facts.inspected is Some
    &&& facts.opened is Some
    &&& facts.open_inspected is Some
    &&& facts.rechecked is Some
    &&& facts.normalized is Some
    &&& facts.contents is Some
}

/// A step asks for a fact that is not known yet, and once every fact is known the file is accepted or
/// refused: whoever takes the steps is done after one of each.
pub proof fn law_steps_come_to_an_end(facts: TokenFacts)
    ensures
        next_step(facts) is Inspect ==> facts.inspected is None,
        next_step(facts) is Open ==> facts.opened is None,
        next_step(facts) is InspectOpen ==> facts.open_inspected is None,
        next_step(facts) is Recheck ==> facts.rechecked is None,
        next_step(facts) is Normalize ==> facts.normalized is None,
        next_step(facts) is Read ==> facts.contents is None,
        is_complete(facts) ==> next_step(facts) is Accept || next_step(facts) is Refuse,
{
}

/// Every check that does not concern the contents has passed: the path is absolute, canonical and
/// outside the workspace, and names a private regular file, the one that is open.
pub open spec fn passes_checks(facts: TokenFacts) -> bool {
    &&& facts.path@.absolute
    &&& facts.inspected matches Some(Ok(file)) && is_plain_file(file)
    &&& facts.opened matches Some(Ok(()))
    &&& facts.open_inspected matches Some(Ok(open)) && open.is_file && is_private(open.mode)
    &&& facts.rechecked matches Some(Ok(file)) && is_plain_file(file) && is_same_file(
        file,
        facts.open_inspected->0->Ok_0,
    )
    &&& facts.normalized matches Some(Ok(path)) && path@.components == facts.path@.components
    &&& !lies_in(facts.path@, facts.workspace@)
}

/// The file is read only once every other check has passed.
pub proof fn law_contents_are_read_last(facts: TokenFacts)
    ensures
        next_step(facts) is Read <==> passes_checks(facts) && facts.contents is None,
{
}

/// A file is accepted exactly where every check has passed and its contents, as they are, are a
/// token.
pub proof fn law_accepted_file(facts: TokenFacts)
    ensures
        next_step(facts) is Accept <==> {
            &&& passes_checks(facts)
            &&& facts.contents matches Some(Ok(contents)) && token_verdict(contents@) is Ok
        },
        next_step(facts) matches TokenStepView::Accept(token) ==> facts.contents->0->Ok_0@
            == token,
{
}

/// A token is 43 characters of unpadded base64url, and they encode exactly 32 bytes.
pub proof fn law_token_encodes_its_bytes(contents: Seq<u8>)
    ensures
        token_verdict(contents) is Ok <==> contents.len() == TOKEN_TEXT_LEN && is_base64url(
            contents,
        ),
        token_verdict(contents) is Ok ==> contents.len() * 3 / 4 == TOKEN_DECODED_LEN,
{
    if contents.len() == TOKEN_TEXT_LEN && is_base64url(contents) {
        assert forall|i: int| 0 <= i < contents.len() implies #[trigger] contents[i] < 0x80 by {
            assert(sextet(contents[i]) >= 0);
        }
    }
}

/// The facts of a file that was read and holds `contents`.
pub open spec fn facts_with(facts: TokenFacts, contents: Vec<u8>) -> TokenFacts {
    TokenFacts { contents: Some(Ok(contents)), ..facts }
}

/// What a refusal says does not depend on what the file holds: of two files that differ in their
/// contents alone, and that the same check refuses, the same is said, and for the contents it is
/// one of two fixed texts.
pub proof fn law_refusal_does_not_show_contents(facts: TokenFacts, first: Vec<u8>, second: Vec<u8>)
    requires
        next_step(facts_with(facts, first)) is Refuse,
        next_step(facts_with(facts, second)) is Refuse,
        (first@.len() == TOKEN_TEXT_LEN && is_ascii_text(first@)) == (second@.len()
            == TOKEN_TEXT_LEN && is_ascii_text(second@)),
    ensures
        next_step(facts_with(facts, first)) == next_step(facts_with(facts, second)),
        passes_checks(facts) ==> {
            let text = refusal_text(next_step(facts_with(facts, first))->Refuse_0);
            ||| text == "--token-file must contain exactly 43 ASCII base64url characters"@
            ||| text == "--token-file content is not unpadded base64url"@
        },
{
}

/// Two facts are of one file exactly where device and inode are equal, whatever the numbers: a file
/// is the same as itself, and its kind and its mode do not matter.
pub proof fn law_file_is_known_by_its_numbers(left: FileFacts, right: FileFacts)
    ensures
        is_same_file(left, left),
        is_same_file(left, right) == is_same_file(right, left),
        is_same_file(
            left,
            FileFacts { device: left.device, inode: left.inode, ..right },
        ),
        left.device != right.device ==> !is_same_file(left, right),
        left.inode != right.inode ==> !is_same_file(left, right),
{
}

/// A mode is private exactly where the bit for reading by the owner is set and none of the six bits
/// for group and others is; no other bit matters.
pub proof fn law_private_mode_in_digits(mode: u32)
    ensures
        is_private(mode) <==> (mode / 256) % 2 == 1 && mode % 64 == 0,
{
    assert((mode & 0o400 != 0 && mode & 0o077 == 0) <==> ((mode / 256) % 2 == 1 && mode % 64 == 0))
        by (bit_vector);
}

/// A file is plain exactly where it is regular and no link.
pub proof fn law_plain_file_is_regular_and_no_link(facts: FileFacts)
    ensures
        is_plain_file(facts) <==> facts.is_file && !facts.is_symlink,
{
}

/// Whatever lies below a directory lies in it, and so does the directory itself; a path that parts
/// from the directory at any component, or stops short of it, does not.
pub proof fn law_path_lies_below_its_beginning(
    directory: PathPartsView,
    path: PathPartsView,
    below: Seq<Seq<u8>>,
    i: int,
)
    ensures
        path.components == directory.components + below ==> lies_in(path, directory),
        0 <= i < directory.components.len() && i < path.components.len() && path.components[i]
            != directory.components[i] ==> !lies_in(path, directory),
        path.components.len() < directory.components.len() ==> !lies_in(path, directory),
{
    if path.components == directory.components + below {
        assert(path.components.subrange(0, directory.components.len() as int)
            =~= directory.components);
    }
    if lies_in(path, directory) && 0 <= i < directory.components.len() {
        assert(path.components.subrange(0, directory.components.len() as int)[i]
            == path.components[i]);
    }
}

/// Nothing of a path or of a step is lost in its view.
pub proof fn law_paths_and_steps_are_shown_as_they_are(
    path: PathParts,
    token: [u8; TOKEN_TEXT_LEN],
    error: TokenError,
)
    ensures
        path@.absolute == path.absolute,
        path@.components.len() == path.components@.len(),
        forall|i: int|
            0 <= i < path.components@.len() ==> #[trigger] path@.components[i]
                == path.components@[i]@,
        TokenStep::Inspect@ == TokenStepView::Inspect,
        TokenStep::Open@ == TokenStepView::Open,
        TokenStep::InspectOpen@ == TokenStepView::InspectOpen,
        TokenStep::Recheck@ == TokenStepView::Recheck,
        TokenStep::Normalize@ == TokenStepView::Normalize,
        TokenStep::Read@ == TokenStepView::Read,
        TokenStep::Accept(token)@ == TokenStepView::Accept(token@),
        TokenStep::Refuse(error)@ == TokenStepView::Refuse(error),
{
}

/// Contents are a token exactly where there are 43 characters, each of them a letter, a digit, a
/// hyphen or an underscore, and the last one of the sixteen that leave no spare bit set. Contents of
/// another length, or with a byte that is not ASCII, are refused for that; all others for not being
/// base64url.
pub proof fn law_token_is_told_by_its_characters(contents: Seq<u8>)
    ensures
        ({
            let lettered = forall|i: int|
                0 <= i < contents.len() ==> {
                    ||| 0x41 <= #[trigger] contents[i] && contents[i] <= 0x5a
                    ||| 0x61 <= contents[i] && contents[i] <= 0x7a
                    ||| 0x30 <= contents[i] && contents[i] <= 0x39
                    ||| contents[i] == 0x2d
                    ||| contents[i] == 0x5f
                };
            let closing = seq![
                0x41u8,
                0x45,
                0x49,
                0x4d,
                0x51,
                0x55,
                0x59,
                0x63,
                0x67,
                0x6b,
                0x6f,
                0x73,
                0x77,
                0x30,
                0x34,
                0x38,
            ];
            let fits = contents.len() == 43 && forall|i: int|
                0 <= i < contents.len() ==> #[trigger] contents[i] < 0x80;
            &&& fits && lettered && closing.contains(contents[42]) ==> token_verdict(contents)
                == Ok::<Seq<u8>, TokenError>(contents)
            &&& fits && !(lettered && closing.contains(contents[42])) ==> token_verdict(contents)
                == Err::<Seq<u8>, TokenError>(TokenError::NotBase64)
            &&& !fits ==> token_verdict(contents) == Err::<Seq<u8>, TokenError>(
                TokenError::TextLength,
            )
        }),
{
    let closing = seq![
        0x41u8,
        0x45,
        0x49,
        0x4d,
        0x51,
        0x55,
        0x59,
        0x63,
        0x67,
        0x6b,
        0x6f,
        0x73,
        0x77,
        0x30,
        0x34,
        0x38,
    ];
    if contents.len() == 43 {
        let last = contents[42];
        assert(contents.last() == last);
        if closing.contains(last) {
            let k = choose|k: int| 0 <= k < closing.len() && closing[k] == last;
            assert(0 <= k < 16);
            assert(sextet(last) == 4 * k);
        }
        if sextet(last) >= 0 && sextet(last) % 4 == 0 {
            let k = sextet(last) / 4;
            assert(0 <= k < 16);
            assert(closing[k] == last);
            assert(closing.contains(last));
        }
        if is_base64url(contents) {
            assert forall|i: int| 0 <= i < contents.len() implies {
                ||| 0x41 <= #[trigger] contents[i] && contents[i] <= 0x5a
                ||| 0x61 <= contents[i] && contents[i] <= 0x7a
                ||| 0x30 <= contents[i] && contents[i] <= 0x39
                ||| contents[i] == 0x2d
                ||| contents[i] == 0x5f
            } by {
                assert(sextet(contents[i]) >= 0);
            }
            assert(sextet(contents[42]) >= 0);
        }
    }
}

/// What becomes of a file is decided in one order: the first fact that is missing is asked for, the
/// first that does not do refuses the file for its own reason, and a file of which every fact does
/// is accepted with the token that it holds.
pub proof fn law_order_of_refusals(facts: TokenFacts)
    ensures
        ({
            let step = next_step(facts);
            let own = facts.path.components@;
            let workspace = facts.workspace.components@;
            let plain = facts.path.absolute && (facts.inspected matches Some(Ok(file))
                && file.is_file && !file.is_symlink);
            let open = plain && facts.opened is Some && facts.opened->0 is Ok;
            let regular = open && (facts.open_inspected matches Some(Ok(file)) && file.is_file);
            let file = facts.open_inspected->0->Ok_0;
            let same = regular && (facts.rechecked matches Some(Ok(found)) && found.is_file
                && !found.is_symlink && found.device == file.device && found.inode == file.inode);
            let canonical = same && (facts.normalized matches Some(Ok(path))
                && path.components@.len() == own.len() && forall|i: int|
                0 <= i < own.len() ==> #[trigger] path.components@[i]@ == own[i]@);
            let outside = canonical && !(workspace.len() <= own.len() && forall|i: int|
                0 <= i < workspace.len() ==> #[trigger] workspace[i]@ == own[i]@);
            let private = outside && (file.mode / 256) % 2 == 1 && file.mode % 64 == 0;
            &&& !facts.path.absolute ==> step == TokenStepView::Refuse(TokenError::NotAbsolute)
            &&& facts.path.absolute ==> match facts.inspected {
                None => step == TokenStepView::Inspect,
                Some(Err(reason)) => step == TokenStepView::Refuse(TokenError::Inspect(reason)),
                Some(Ok(_)) => !plain ==> step == TokenStepView::Refuse(TokenError::NotRegular),
            }
            &&& plain ==> match facts.opened {
                None => step == TokenStepView::Open,
                Some(Err(reason)) => step == TokenStepView::Refuse(TokenError::Open(reason)),
                Some(Ok(())) => true,
            }
            &&& open ==> match facts.open_inspected {
                None => step == TokenStepView::InspectOpen,
                Some(Err(reason)) => step == TokenStepView::Refuse(TokenError::InspectOpen(reason)),
                Some(Ok(_)) => !regular ==> step == TokenStepView::Refuse(
                    TokenError::NotRegularOpen,
                ),
            }
            &&& regular ==> match facts.rechecked {
                None => step == TokenStepView::Recheck,
                Some(Err(reason)) => step == TokenStepView::Refuse(TokenError::Recheck(reason)),
                Some(Ok(_)) => !same ==> step == TokenStepView::Refuse(TokenError::IdentityChanged),
            }
            &&& same ==> match facts.normalized {
                None => step == TokenStepView::Normalize,
                Some(Err(reason)) => step == TokenStepView::Refuse(TokenError::Normalize(reason)),
                Some(Ok(_)) => !canonical ==> step == TokenStepView::Refuse(
                    TokenError::NotNormalized,
                ),
            }
            &&& canonical && !outside ==> step == TokenStepView::Refuse(TokenError::InsideWorkspace)
            &&& outside && !private ==> step == TokenStepView::Refuse(TokenError::Permissions)
            &&& private ==> match facts.contents {
                None => step == TokenStepView::Read,
                Some(Err(reason)) => step == TokenStepView::Refuse(TokenError::Read(reason)),
                Some(Ok(contents)) => match token_verdict(contents@) {
                    Ok(token) => token == contents@ && step == TokenStepView::Accept(contents@),
                    Err(error) => step == TokenStepView::Refuse(error),
                },
            }
        }),
{
    let own = facts.path@.components;
    let workspace = facts.workspace@.components;
    if let Some(Ok(file)) = facts.open_inspected {
        law_private_mode_in_digits(file.mode);
    }
    if let Some(Ok(path)) = facts.normalized {
        let found = path@.components;
        if found == own {
            assert forall|i: int| 0 <= i < own.len() implies #[trigger] path.components@[i]@
                == facts.path.components@[i]@ by {
                assert(found[i] == own[i]);
            }
        }
        if path.components@.len() == own.len() && (forall|i: int|
            0 <= i < own.len() ==> #[trigger] path.components@[i]@ == facts.path.components@[i]@) {
            assert(found =~= own) by {
                assert forall|i: int| 0 <= i < own.len() implies found[i] == own[i] by {
                    assert(path.components@[i]@ == facts.path.components@[i]@);
                }
            }
        }
    }
    if workspace.is_prefix_of(own) {
        assert forall|i: int| 0 <= i < workspace.len() implies #[trigger] facts.workspace.components@[i]@
            == facts.path.components@[i]@ by {
            assert(own.subrange(0, workspace.len() as int)[i] == workspace[i]);
        }
    }
    if workspace.len() <= own.len() && (forall|i: int|
        0 <= i < workspace.len() ==> #[trigger] facts.workspace.components@[i]@
            == facts.path.components@[i]@) {
        assert(workspace =~= own.subrange(0, workspace.len() as int)) by {
            assert forall|i: int| 0 <= i < workspace.len() implies workspace[i] == own[i] by {
                assert(facts.workspace.components@[i]@ == facts.path.components@[i]@);
            }
        }
    }
}

/// A file that stays as it is while it is opened is accepted, whatever its numbers: a regular,
/// private file under a canonical absolute path outside the workspace that holds a token.
pub proof fn law_unchanged_file_is_accepted(facts: TokenFacts, file: FileFacts, contents: Vec<u8>)
    requires
        facts.path.absolute,
        file.is_file,
        !file.is_symlink,
        (file.mode / 256) % 2 == 1,
        file.mode % 64 == 0,
        facts.inspected == Some(Ok::<FileFacts, String>(file)),
        facts.opened == Some(Ok::<(), String>(())),
        facts.open_inspected == Some(Ok::<FileFacts, String>(file)),
        facts.rechecked == Some(Ok::<FileFacts, String>(file)),
        facts.normalized == Some(Ok::<PathParts, String>(facts.path)),
        facts.workspace.components@.len() > facts.path.components@.len() || exists|i: int|
            0 <= i < facts.workspace.components@.len() && #[trigger] facts.workspace.components@[i]@
                != facts.path.components@[i]@,
        facts.contents == Some(Ok::<Vec<u8>, String>(contents)),
        token_verdict(contents@) is Ok,
    ensures
        next_step(facts) == TokenStepView::Accept(contents@),
{
    law_order_of_refusals(facts);
}

/// A refusal says its own words, followed by the reason where there is one, whatever that is.
pub proof fn law_refusals_say_their_own_words(reason: String)
    ensures
        refusal_text(TokenError::NotAbsolute) == "--token-file must be an absolute path"@,
        refusal_text(TokenError::Inspect(reason)) == "cannot inspect --token-file: "@ + reason@,
        refusal_text(TokenError::NotRegular)
            == "--token-file must name a regular, non-symbolic-link file"@,
        refusal_text(TokenError::Open(reason)) == "cannot open --token-file: "@ + reason@,
        refusal_text(TokenError::InspectOpen(reason)) == "cannot inspect open --token-file: "@
            + reason@,
        refusal_text(TokenError::NotRegularOpen)
            == "--token-file must remain a regular file while opening"@,
        refusal_text(TokenError::Recheck(reason)) == "cannot recheck open --token-file: "@
            + reason@,
        refusal_text(TokenError::IdentityChanged)
            == "--token-file identity changed while it was being opened"@,
        refusal_text(TokenError::Normalize(reason)) == "cannot normalize --token-file: "@ + reason@,
        refusal_text(TokenError::NotNormalized)
            == "--token-file must already be a normalized absolute path"@,
        refusal_text(TokenError::InsideWorkspace)
            == "--token-file must be outside the bound Workspace"@,
        refusal_text(TokenError::Permissions)
            == "--token-file must be owner-readable and grant no group or other permissions"@,
        refusal_text(TokenError::Read(reason)) == "cannot read --token-file: "@ + reason@,
        refusal_text(TokenError::TextLength)
            == "--token-file must contain exactly 43 ASCII base64url characters"@,
        refusal_text(TokenError::NotBase64) == "--token-file content is not unpadded base64url"@,
        refusal_text(TokenError::DecodedLength) == "--token-file must encode exactly 32 bytes"@,
{
}

/// A mode is refused exactly where the owner cannot read or anybody else can do anything.
pub proof fn law_permissions_are_judged_by_the_mode(mode: u32, verdict: Result<(), TokenError>)
    requires
        call_ensures(validate_token_permissions, (mode,), verdict),
    ensures
        (mode / 256) % 2 == 1 && mode % 64 == 0 ==> verdict is Ok,
        (mode / 256) % 2 == 0 || mode % 64 != 0 ==> verdict == Err::<(), TokenError>(
            TokenError::Permissions,
        ),
{
    law_private_mode_in_digits(mode);
}

} // verus!
