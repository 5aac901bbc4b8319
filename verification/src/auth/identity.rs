//! Lists of who may log in.

use crate::auth::error::{AuthError, AuthErrorView};
use crate::auth::key::{
    authorized_key_parts, decode_authorized_key, public_key_of, public_key_parts, KeyDataView,
    PublicKey, PublicKeyView,
};
use crate::failure::IoErrorKind;
use crate::text::{
    chars_of, first_word_ends_at_white_space, is_white_space, lines, lines_of, same_text,
    split_whitespace, texts_view, trim, trimmed, white_space_around_goes, words,
};
use vstd::prelude::*;
use vstd::string::*;

verus! {

/// A user of an identity provider.
#[derive(Clone, Debug, PartialEq, Eq)]
pub struct OidcIdentity {
    pub client_id: String,
    pub issuer_url: String,
    pub email: String,
}

/// The mathematical counterpart of [`OidcIdentity`].
pub struct OidcIdentityView {
    pub client_id: Seq<char>,
    pub issuer_url: Seq<char>,
    pub email: Seq<char>,
}

impl View for OidcIdentity {
    type V = OidcIdentityView;

    open spec fn view(&self) -> OidcIdentityView {
        OidcIdentityView {
            client_id: self.client_id@,
            issuer_url: self.issuer_url@,
            email: self.email@,
        }
    }
}

/// Someone who may log in.
#[derive(Clone, Debug, PartialEq, Eq)]
pub enum AuthorizedIdentity {
    PublicKey(PublicKey),
    Oidc(OidcIdentity),
}

/// The mathematical counterpart of [`AuthorizedIdentity`].
pub enum AuthorizedIdentityView {
    PublicKey(PublicKeyView),
    Oidc(OidcIdentityView),
}

impl View for AuthorizedIdentity {
    type V = AuthorizedIdentityView;

    open spec fn view(&self) -> AuthorizedIdentityView {
        match *self {
            AuthorizedIdentity::PublicKey(key) => AuthorizedIdentityView::PublicKey(key@),
            AuthorizedIdentity::Oidc(identity) => AuthorizedIdentityView::Oidc(identity@),
        }
    }
}

pub open spec fn identities_view(identities: Seq<AuthorizedIdentity>) -> Seq<
    AuthorizedIdentityView,
> {
    identities.map_values(|identity: AuthorizedIdentity| identity@)
}

pub open spec fn keys_view(keys: Seq<PublicKey>) -> Seq<PublicKeyView> {
    keys.map_values(|key: PublicKey| key@)
}

/// The user of an identity provider that a line names: the word `oidc`, and exactly three more.
pub open spec fn oidc_identity_of(line: Seq<char>) -> Option<OidcIdentityView> {
    let parts = words(line);
    if parts.len() == 4 && parts[0] == "oidc"@ {
        Some(OidcIdentityView { client_id: parts[1], issuer_url: parts[2], email: parts[3] })
    } else {
        None
    }
}

/// Whom a line lists. An empty line and a comment list nobody, and neither does a line that is
/// neither a user of an identity provider nor a key.
pub open spec fn identity_of(line: Seq<char>) -> Option<AuthorizedIdentityView> {
    let text = trimmed(line);
    if text.len() == 0 || text[0] == '#' {
        None
    } else {
        match oidc_identity_of(text) {
            Some(identity) => Some(AuthorizedIdentityView::Oidc(identity)),
            None => match authorized_key_parts(text) {
                Some((blob, comment)) => match public_key_of(blob, comment) {
                    Ok(key) => Some(AuthorizedIdentityView::PublicKey(key)),
                    Err(_) => None,
                },
                None => None,
            },
        }
    }
}

/// What a line adds to a list.
pub open spec fn listed_by(line: Seq<char>) -> Seq<AuthorizedIdentityView> {
    match identity_of(line) {
        Some(identity) => seq![identity],
        None => Seq::empty(),
    }
}

/// Whom lines list, in their order.
pub open spec fn listed(text_lines: Seq<Seq<char>>) -> Seq<AuthorizedIdentityView>
    decreases text_lines.len(),
{
    if text_lines.len() == 0 {
        Seq::empty()
    } else {
        listed(text_lines.drop_last()) + listed_by(text_lines.last())
    }
}

/// The keys among identities, in their order.
pub open spec fn keys_among(identities: Seq<AuthorizedIdentityView>) -> Seq<PublicKeyView>
    decreases identities.len(),
{
    if identities.len() == 0 {
        Seq::empty()
    } else {
        let rest = keys_among(identities.drop_last());
        match identities.last() {
            AuthorizedIdentityView::PublicKey(key) => rest.push(key),
            AuthorizedIdentityView::Oidc(_) => rest,
        }
    }
}

fn parse_oidc_identity(line: &str) -> (identity: Option<OidcIdentity>)
    ensures
        (match identity {
            Some(identity) => Some(identity@),
            None => None,
        }) == oidc_identity_of(line@),
{
    let parts: Vec<String> = split_whitespace(line);
    proof {
        assert(texts_view(parts@) == words(line@));
        assert(parts@.len() == words(line@).len());
    }
    if parts.len() == 4 && same_text(parts[0].as_str(), "oidc") {
        Some(
            OidcIdentity {
                client_id: parts[1].as_str().to_owned(),
                issuer_url: parts[2].as_str().to_owned(),
                email: parts[3].as_str().to_owned(),
            },
        )
    } else {
        None
    }
}

fn parse_identity(line: &str) -> (identity: Option<AuthorizedIdentity>)
    ensures
        (match identity {
            Some(identity) => Some(identity@),
            None => None,
        }) == identity_of(line@),
{
    let text: String = trim(line);
    let chars: Vec<char> = chars_of(text.as_str());
    if chars.len() == 0 || chars[0] == '#' {
        return None;
    }
    match parse_oidc_identity(text.as_str()) {
        Some(identity) => Some(AuthorizedIdentity::Oidc(identity)),
        None => match decode_authorized_key(text.as_str()) {
            Some((blob, comment)) => match PublicKey::from_bytes(blob, comment) {
                Ok(key) => Some(AuthorizedIdentity::PublicKey(key)),
                Err(_) => None,
            },
            None => None,
        },
    }
}

/// Whom a list names, in its order.
pub fn parse_authorized_identities(contents: &str) -> (identities: Vec<AuthorizedIdentity>)
    ensures
        identities_view(identities@) == listed(lines_of(contents@)),
{
    let all: Vec<String> = lines(contents);
    let mut identities: Vec<AuthorizedIdentity> = Vec::new();
    let ghost texts = texts_view(all@);
    let mut i: usize = 0;
    proof {
        assert(texts.take(0) =~= Seq::<Seq<char>>::empty());
        assert(identities_view(identities@) =~= listed(texts.take(0)));
    }
    while i < all.len()
        invariant
            i <= all@.len(),
            texts == texts_view(all@),
            identities_view(identities@) == listed(texts.take(i as int)),
        decreases all@.len() - i,
    {
        let ghost before = identities@;
        let identity: Option<AuthorizedIdentity> = parse_identity(all[i].as_str());
        match identity {
            Some(identity) => identities.push(identity),
            None => {},
        }
        proof {
            let next = texts.take(i + 1);
            assert(next.drop_last() =~= texts.take(i as int));
            assert(next.last() == all@[i as int]@);
            assert(identities_view(identities@) =~= identities_view(before) + listed_by(
                next.last(),
            ));
        }
        i = i + 1;
    }
    proof {
        assert(texts.take(i as int) =~= texts);
    }
    identities
}

/// The keys among identities, in their order.
pub fn public_keys_of(identities: Vec<AuthorizedIdentity>) -> (keys: Vec<PublicKey>)
    ensures
        keys_view(keys@) == keys_among(identities_view(identities@)),
{
    let mut keys: Vec<PublicKey> = Vec::new();
    let ghost all = identities_view(identities@);
    proof {
        assert(all.take(0) =~= Seq::<AuthorizedIdentityView>::empty());
        assert(keys_view(keys@) =~= keys_among(all.take(0)));
    }
    for identity in it: identities
        invariant
            it.seq() == identities@,
            all == identities_view(identities@),
            keys_view(keys@) == keys_among(all.take(it.index())),
    {
        let ghost before = keys@;
        proof {
            let next = all.take(it.index() + 1);
            assert(next.drop_last() =~= all.take(it.index()));
            assert(next.last() == identity@);
        }
        match identity {
            AuthorizedIdentity::PublicKey(key) => {
                keys.push(key);
                proof {
                    assert(keys_view(keys@) =~= keys_view(before).push(key@));
                }
            },
            AuthorizedIdentity::Oidc(_) => {},
        }
    }
    proof {
        assert(all.take(all.len() as int) =~= all);
    }
    keys
}

/// The keys that a list names, in its order.
pub fn parse_authorized_public_keys(contents: &str) -> (keys: Vec<PublicKey>)
    ensures
        keys_view(keys@) == keys_among(listed(lines_of(contents@))),
{
    public_keys_of(parse_authorized_identities(contents))
}

/// What reading a file came to.
#[derive(Clone, Debug, PartialEq, Eq)]
pub enum FileRead {
    Contents(String),
    Missing,
    /// Something went wrong, of this kind and in words.
    Failed(IoErrorKind, String),
}

/// The mathematical counterpart of [`FileRead`].
pub enum FileReadView {
    Contents(Seq<char>),
    Missing,
    Failed(IoErrorKind, Seq<char>),
}

impl View for FileRead {
    type V = FileReadView;

    open spec fn view(&self) -> FileReadView {
        match *self {
            FileRead::Contents(text) => FileReadView::Contents(text@),
            FileRead::Missing => FileReadView::Missing,
            FileRead::Failed(kind, reason) => FileReadView::Failed(kind, reason@),
        }
    }
}

pub open spec fn files_view(files: Seq<FileRead>) -> Seq<FileReadView> {
    files.map_values(|file: FileRead| file@)
}

/// Whom several lists name: each list in turn, and nobody where a file is missing. The first file
/// that cannot be read for another reason ends this with the reason.
pub open spec fn loaded(files: Seq<FileReadView>) -> Result<
    Seq<AuthorizedIdentityView>,
    AuthErrorView,
>
    decreases files.len(),
{
    if files.len() == 0 {
        Ok(Seq::empty())
    } else {
        match (loaded(files.drop_last()), files.last()) {
            (Err(error), _) => Err(error),
            (Ok(before), FileReadView::Contents(text)) => Ok(before + listed(lines_of(text))),
            (Ok(before), FileReadView::Missing) => Ok(before),
            (Ok(_), FileReadView::Failed(kind, reason)) => Err(AuthErrorView::Io(kind, reason)),
        }
    }
}

proof fn lemma_failed_stays(files: Seq<FileReadView>, count: int)
    requires
        0 <= count <= files.len(),
        loaded(files.take(count)) is Err,
    ensures
        loaded(files) == loaded(files.take(count)),
    decreases files.len() - count,
{
    if count == files.len() {
        assert(files.take(count) =~= files);
    } else {
        assert(files.take(count + 1).drop_last() =~= files.take(count));
        lemma_failed_stays(files, count + 1);
    }
}

/// Whom several lists name, in their order.
pub fn load_authorized_identities(files: &[FileRead]) -> (result: Result<
    Vec<AuthorizedIdentity>,
    AuthError,
>)
    ensures
        (match result {
            Ok(identities) => Ok(identities_view(identities@)),
            Err(error) => Err(error@),
        }) == loaded(files_view(files@)),
{
    let mut identities: Vec<AuthorizedIdentity> = Vec::new();
    let ghost all = files_view(files@);
    let mut i: usize = 0;
    proof {
        assert(all.take(0) =~= Seq::<FileReadView>::empty());
        assert(identities_view(identities@) =~= Seq::<AuthorizedIdentityView>::empty());
    }
    while i < files.len()
        invariant
            i <= files@.len(),
            all == files_view(files@),
            loaded(all.take(i as int)) matches Ok(found) && found == identities_view(identities@),
        decreases files@.len() - i,
    {
        proof {
            assert(all.take(i + 1).drop_last() =~= all.take(i as int));
            assert(all.take(i + 1).last() == files@[i as int]@);
        }
        match &files[i] {
            FileRead::Contents(text) => {
                let ghost before = identities@;
                let mut more: Vec<AuthorizedIdentity> = parse_authorized_identities(text.as_str());
                let ghost added = more@;
                identities.append(&mut more);
                proof {
                    assert(identities_view(identities@) =~= identities_view(before)
                        + identities_view(added));
                }
            },
            FileRead::Missing => {},
            FileRead::Failed(kind, reason) => {
                proof {
                    lemma_failed_stays(all, i + 1);
                }
                return Err(AuthError::Io(*kind, reason.as_str().to_owned()));
            },
        }
        i = i + 1;
    }
    proof {
        assert(all.take(i as int) =~= all);
    }
    Ok(identities)
}

/// A line with the word `oidc`, a client, an issuer and an address, with blanks in between, lists
/// the user of the identity provider that it names.
pub proof fn oidc_line_lists_its_user(
    client_id: Seq<char>,
    issuer_url: Seq<char>,
    email: Seq<char>,
)
    requires
        client_id.len() > 0,
        issuer_url.len() > 0,
        email.len() > 0,
        forall|i: int| 0 <= i < client_id.len() ==> !is_white_space(#[trigger] client_id[i]),
        forall|i: int| 0 <= i < issuer_url.len() ==> !is_white_space(#[trigger] issuer_url[i]),
        forall|i: int| 0 <= i < email.len() ==> !is_white_space(#[trigger] email[i]),
    ensures
        identity_of("oidc"@ + " "@ + client_id + " "@ + issuer_url + " "@ + email) == Some(
            AuthorizedIdentityView::Oidc(OidcIdentityView { client_id, issuer_url, email }),
        ),
{
    reveal_strlit("oidc");
    reveal_strlit(" ");
    let nothing = Seq::<char>::empty();
    let third = issuer_url + seq![' '] + email;
    let second = client_id + seq![' '] + third;
    let line = "oidc"@ + seq![' '] + second;
    assert(" "@ =~= seq![' ']);
    assert("oidc"@ + " "@ + client_id + " "@ + issuer_url + " "@ + email =~= line);
    first_word_ends_at_white_space(nothing, email, ' ', nothing);
    assert(nothing + email =~= email);
    first_word_ends_at_white_space(nothing, issuer_url, ' ', email);
    assert(nothing + issuer_url + seq![' '] + email =~= third);
    first_word_ends_at_white_space(nothing, client_id, ' ', third);
    assert(nothing + client_id + seq![' '] + third =~= second);
    first_word_ends_at_white_space(nothing, "oidc"@, ' ', second);
    assert(nothing + "oidc"@ + seq![' '] + second =~= line);
    assert(words(line) =~= seq!["oidc"@, client_id, issuer_url, email]);
    assert(line.last() == email.last());
    assert(email.last() == email[email.len() - 1]);
    assert(line[0] == 'o');
    white_space_around_goes(nothing, line, nothing);
    assert(nothing + line + nothing =~= line);
}

/// A line that is a key lists the key, with its comment, unless it lists the user of an identity
/// provider; white space around it does not matter.
pub proof fn key_line_lists_its_key(
    line: Seq<char>,
    blob: Seq<u8>,
    comment: Seq<char>,
    algorithm: Seq<char>,
    data: KeyDataView,
)
    requires
        trimmed(line).len() > 0,
        trimmed(line)[0] != '#',
        words(trimmed(line)).len() != 4 || words(trimmed(line))[0] != "oidc"@,
        authorized_key_parts(trimmed(line)) == Some((blob, comment)),
        public_key_parts(blob) == Ok::<(Seq<char>, KeyDataView), Seq<char>>((algorithm, data)),
    ensures
        identity_of(line) == Some(
            AuthorizedIdentityView::PublicKey(PublicKeyView { blob, comment, algorithm, data }),
        ),
{
}

/// A comment and a line of white space list nobody, and neither does a line that is no key and has
/// not the four words of a user of an identity provider.
pub proof fn other_lines_list_nobody(line: Seq<char>)
    ensures
        trimmed(line).len() == 0 ==> identity_of(line) is None,
        trimmed(line).len() > 0 && trimmed(line)[0] == '#' ==> identity_of(line) is None,
        (words(trimmed(line)).len() != 4 || words(trimmed(line))[0] != "oidc"@)
            && authorized_key_parts(trimmed(line)) is None ==> identity_of(line) is None,
{
}

/// A list is read line by line: what one list names is followed by what is behind it, and a line
/// adds whom it lists, or nobody.
pub proof fn lists_follow_one_another(first: Seq<Seq<char>>, second: Seq<Seq<char>>)
    ensures
        listed(first + second) == listed(first) + listed(second),
        forall|line: Seq<char>| #[trigger]
            identity_of(line) matches Some(identity) ==> listed(seq![line]) == seq![identity],
        forall|line: Seq<char>| #[trigger]
            identity_of(line) is None ==> listed(seq![line]) == Seq::<
                AuthorizedIdentityView,
            >::empty(),
    decreases second.len(),
{
    assert forall|line: Seq<char>| true implies listed(seq![line]) == listed_by(line) by {
        assert(seq![line].drop_last() =~= Seq::<Seq<char>>::empty());
        assert(listed(Seq::empty()) + listed_by(line) =~= listed_by(line));
    }
    if second.len() == 0 {
        assert(first + second =~= first);
        assert(listed(first) + listed(second) =~= listed(first));
    } else {
        lists_follow_one_another(first, second.drop_last());
        assert((first + second).drop_last() =~= first + second.drop_last());
        assert((first + second).last() == second.last());
        assert(listed(first + second) =~= listed(first) + listed(second));
    }
}

/// The keys among identities are those that are keys, in their order.
pub proof fn keys_keep_their_order(
    first: Seq<AuthorizedIdentityView>,
    second: Seq<AuthorizedIdentityView>,
    key: PublicKeyView,
    user: OidcIdentityView,
)
    ensures
        keys_among(first + second) == keys_among(first) + keys_among(second),
        keys_among(seq![AuthorizedIdentityView::PublicKey(key)]) == seq![key],
        keys_among(seq![AuthorizedIdentityView::Oidc(user)]) == Seq::<PublicKeyView>::empty(),
    decreases second.len(),
{
    let alone = seq![AuthorizedIdentityView::PublicKey(key)];
    assert(alone.drop_last() =~= Seq::<AuthorizedIdentityView>::empty());
    assert(keys_among(Seq::empty()) =~= Seq::<PublicKeyView>::empty());
    assert(alone.last() == AuthorizedIdentityView::PublicKey(key));
    assert(keys_among(alone) =~= seq![key]);
    let other = seq![AuthorizedIdentityView::Oidc(user)];
    assert(other.drop_last() =~= Seq::<AuthorizedIdentityView>::empty());
    assert(other.last() == AuthorizedIdentityView::Oidc(user));
    if second.len() == 0 {
        assert(first + second =~= first);
        assert(keys_among(first) + keys_among(second) =~= keys_among(first));
    } else {
        keys_keep_their_order(first, second.drop_last(), key, user);
        assert((first + second).drop_last() =~= first + second.drop_last());
        assert((first + second).last() == second.last());
        assert(keys_among(first + second) =~= keys_among(first) + keys_among(second));
    }
}

/// Files are read in turn: one that is there adds whom its lines list, a missing one nobody, and
/// the first that cannot be read ends this with its reason.
pub proof fn files_are_read_in_turn(files: Seq<FileReadView>, file: FileReadView)
    ensures
        loaded(Seq::empty()) == Ok::<Seq<AuthorizedIdentityView>, AuthErrorView>(Seq::empty()),
        loaded(files) is Err ==> loaded(files.push(file)) == loaded(files),
        loaded(files) matches Ok(before) ==> file matches FileReadView::Contents(text) ==> loaded(
            files.push(file),
        ) == Ok::<Seq<AuthorizedIdentityView>, AuthErrorView>(before + listed(lines_of(text))),
        loaded(files) is Ok && file is Missing ==> loaded(files.push(file)) == loaded(files),
        loaded(files) is Ok ==> (file matches FileReadView::Failed(kind, reason) ==> loaded(
            files.push(file),
        ) == Err::<Seq<AuthorizedIdentityView>, AuthErrorView>(AuthErrorView::Io(kind, reason))),
{
    assert(files.push(file).drop_last() =~= files);
    assert(files.push(file).last() == file);
}

} // verus!
