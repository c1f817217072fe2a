//! Master playlists: decoding, putting a token in front of the variant URIs,
//! and encoding.

use vstd::prelude::*;
use vstd::string::StringExecFns;

verus! {

/// `m3u8_rs::playlist::MasterPlaylist`, a parsed master playlist. Nothing
/// is said of what is inside: a value is carried from the parser to the
/// writer.
#[verifier::external_type_specification]
#[verifier::external_body]
pub struct ExMasterPlaylist(m3u8_rs::playlist::MasterPlaylist);

/// `m3u8_rs::playlist::VariantStream`, one parsed stream entry. Nothing is
/// said of what is inside: a value is carried from the parser to the writer.
#[verifier::external_type_specification]
#[verifier::external_body]
pub struct ExVariantStream(m3u8_rs::playlist::VariantStream);

/// One variant stream of a master playlist.
#[derive(Debug, PartialEq)]
pub struct Variant {
    /// Where the stream's media playlist is found, relative or absolute.
    pub uri: String,
    /// The entry as it was parsed, for everything but the URI: bandwidth,
    /// resolution, codecs and the rest. The URI inside it is never read.
    pub attributes: m3u8_rs::playlist::VariantStream,
}

/// A master playlist: its variant streams in order, and the playlist-level
/// directives around them.
#[derive(Debug, PartialEq)]
pub struct Manifest {
    pub variants: Vec<Variant>,
    /// The playlist as it was parsed, for everything but the variants:
    /// version, session data and key, start, independent segments. The
    /// variants inside it are never read.
    pub directives: m3u8_rs::playlist::MasterPlaylist,
}

/// What a `Variant` is to a contract.
pub struct VariantView {
    pub uri: Seq<char>,
    pub attributes: m3u8_rs::playlist::VariantStream,
}

/// What a `Manifest` is to a contract.
pub struct ManifestView {
    pub variants: Seq<VariantView>,
    pub directives: m3u8_rs::playlist::MasterPlaylist,
}

impl View for Variant {
    type V = VariantView;

    open spec fn view(&self) -> VariantView {
        VariantView { uri: self.uri@, attributes: self.attributes }
    }
}

impl View for Manifest {
    type V = ManifestView;

    open spec fn view(&self) -> ManifestView {
        ManifestView {
            variants: self.variants@.map_values(|v: Variant| v@),
            directives: self.directives,
        }
    }
}

/// A URI with the token in front of it: the token, a slash, the URI.
pub open spec fn prefixed(token: Seq<char>, uri: Seq<char>) -> Seq<char> {
    token + seq!['/'] + uri
}

/// A variant whose URI carries the token; nothing else differs.
pub open spec fn rewritten_variant(variant: VariantView, token: Seq<char>) -> VariantView {
    VariantView { uri: prefixed(token, variant.uri), attributes: variant.attributes }
}

/// A playlist in which every variant's URI carries the token: as many
/// variants, in the same order, and the same directives.
pub open spec fn rewritten(playlist: ManifestView, token: Seq<char>) -> ManifestView {
    ManifestView {
        variants: playlist.variants.map_values(|v: VariantView| rewritten_variant(v, token)),
        directives: playlist.directives,
    }
}

/// `Clone::clone` of `m3u8_rs::playlist::VariantStream`, which the crate
/// derives: the copy is the same entry, field for field.
pub assume_specification[ <m3u8_rs::playlist::VariantStream as Clone>::clone ](
    entry: &m3u8_rs::playlist::VariantStream,
) -> (copy: m3u8_rs::playlist::VariantStream)
    ensures
        copy == *entry,
;

/// Puts the token and a slash in front of a URI.
pub fn prefix_uri(token: &str, uri: &str) -> (out: String)
    ensures
        out@ == prefixed(token@, uri@),
{
    proof {
        reveal_strlit("/");
    }
    let out = String::from_str(token).concat("/").concat(uri);
    assert(out@ =~= prefixed(token@, uri@));
    out
}

/// Puts the token in front of the URI of every variant. The variants keep
/// their number, their order and their attributes, and the directives of
/// the playlist are the ones that came in.
pub fn rewrite_variants(playlist: Manifest, token: &str) -> (out: Manifest)
    ensures
        out@ == rewritten(playlist@, token@),
{
    let mut variants: Vec<Variant> = Vec::new();
    let n = playlist.variants.len();
    let mut i: usize = 0;
    while i < n
        invariant
            n == playlist.variants.len(),
            i <= n,
            variants.len() == i,
            forall|k: int|
                0 <= k < i ==> (#[trigger] variants[k])@ == rewritten_variant(
                    playlist.variants[k]@,
                    token@,
                ),
        decreases n - i,
    {
        let variant = &playlist.variants[i];
        let changed = Variant {
            uri: prefix_uri(token, variant.uri.as_str()),
            attributes: variant.attributes.clone(),
        };
        variants.push(changed);
        i += 1;
    }
    let out = Manifest { variants, directives: playlist.directives };
    assert(out@.variants =~= rewritten(playlist@, token@).variants);
    out
}

/// Whether `m3u8_rs::is_master_playlist` takes a text for a master playlist.
/// It reads the text line by line up to the first tag that only one of the
/// two kinds of playlist can hold, and answers for that tag; a text with no
/// such tag is not a master playlist.
pub uninterp spec fn is_master_playlist_text(bytes: Seq<u8>) -> bool;

/// What `m3u8_rs::parse_master_playlist` makes of a text: the playlist, or
/// nothing where the parser gives up.
pub uninterp spec fn parsed_master_playlist(bytes: Seq<u8>) -> Option<ManifestView>;

/// What `m3u8_rs::playlist::MasterPlaylist::write_to` writes for a playlist:
/// its text, or nothing where the writer reports an error.
pub uninterp spec fn written_master_playlist(playlist: ManifestView) -> Option<Seq<u8>>;

/// `m3u8_rs::is_master_playlist`: the answer depends on the text alone.
pub assume_specification[ m3u8_rs::is_master_playlist ](input: &[u8]) -> (master: bool)
    ensures
        master == is_master_playlist_text(input@),
;

/// Calls `m3u8_rs::parse_master_playlist` and hands the playlist on with the
/// variants and their URIs moved out of it. What comes back depends on the
/// text alone; the parser returns on every text.
#[verifier::external_body]
fn parse_master(bytes: &[u8]) -> (parsed: Option<Manifest>)
    ensures
        match parsed {
            Some(playlist) => parsed_master_playlist(bytes@) == Some(playlist@),
            None => parsed_master_playlist(bytes@) is None,
        },
{
    match m3u8_rs::parse_master_playlist(bytes) {
        Ok((_, mut directives)) => {
            let variants = std::mem::take(&mut directives.variants)
                .into_iter()
                .map(|mut attributes| Variant { uri: std::mem::take(&mut attributes.uri), attributes })
                .collect();
            Some(Manifest { variants, directives })
        },
        Err(_) => None,
    }
}

/// Puts the variants and their URIs back into the parsed playlist and calls
/// `m3u8_rs::playlist::MasterPlaylist::write_to` on an empty buffer. What
/// comes back depends on the playlist alone.
#[verifier::external_body]
fn write_master(playlist: &Manifest) -> (written: Option<Vec<u8>>)
    ensures
        match written {
            Some(bytes) => written_master_playlist(playlist@) == Some(bytes@),
            None => written_master_playlist(playlist@) is None,
        },
{
    let mut whole = playlist.directives.clone();
    whole.variants = playlist.variants
        .iter()
        .map(|v| m3u8_rs::playlist::VariantStream { uri: v.uri.clone(), ..v.attributes.clone() })
        .collect();
    let mut bytes = Vec::new();
    match whole.write_to(&mut bytes) {
        Ok(()) => Some(bytes),
        Err(_) => None,
    }
}

/// Why a body could not be turned into a rewritten playlist.
#[derive(Clone, Copy, Debug, PartialEq, Eq, Structural)]
pub enum PlaylistError {
    /// The text is not a master playlist: a media playlist, or no playlist.
    NotMaster,
    /// The text looked like a master playlist and did not parse.
    Malformed,
    /// The playlist could not be written out.
    Unwritable,
}

/// What decoding makes of a text.
pub open spec fn decoded(bytes: Seq<u8>) -> Result<ManifestView, PlaylistError> {
    if !is_master_playlist_text(bytes) {
        Err(PlaylistError::NotMaster)
    } else {
        match parsed_master_playlist(bytes) {
            Some(playlist) => Ok(playlist),
            None => Err(PlaylistError::Malformed),
        }
    }
}

/// What encoding makes of a playlist.
pub open spec fn encoded(playlist: ManifestView) -> Result<Seq<u8>, PlaylistError> {
    match written_master_playlist(playlist) {
        Some(bytes) => Ok(bytes),
        None => Err(PlaylistError::Unwritable),
    }
}

/// The body that answers a body and a token: the playlist in the body with
/// the token in front of every variant URI, written out again.
pub open spec fn rewritten_body(body: Seq<u8>, token: Seq<char>) -> Result<Seq<u8>, PlaylistError> {
    match decoded(body) {
        Ok(playlist) => encoded(rewritten(playlist, token)),
        Err(error) => Err(error),
    }
}

/// Reads a master playlist. A text that is a media playlist, or in which no
/// tag tells the kind, is refused before it is parsed.
pub fn decode(bytes: &[u8]) -> (out: Result<Manifest, PlaylistError>)
    ensures
        match out {
            Ok(playlist) => decoded(bytes@) == Ok::<ManifestView, PlaylistError>(playlist@),
            Err(error) => decoded(bytes@) == Err::<ManifestView, PlaylistError>(error),
        },
{
    if !m3u8_rs::is_master_playlist(bytes) {
        return Err(PlaylistError::NotMaster);
    }
    match parse_master(bytes) {
        Some(playlist) => Ok(playlist),
        None => Err(PlaylistError::Malformed),
    }
}

/// Writes a master playlist out as text.
pub fn encode(playlist: &Manifest) -> (out: Result<Vec<u8>, PlaylistError>)
    ensures
        match out {
            Ok(bytes) => encoded(playlist@) == Ok::<Seq<u8>, PlaylistError>(bytes@),
            Err(error) => encoded(playlist@) == Err::<Seq<u8>, PlaylistError>(error),
        },
{
    match write_master(playlist) {
        Some(bytes) => Ok(bytes),
        None => Err(PlaylistError::Unwritable),
    }
}

/// Decodes a body, puts the token in front of every variant URI, and
/// encodes the result.
pub fn rewrite_body(body: &[u8], token: &str) -> (out: Result<Vec<u8>, PlaylistError>)
    ensures
        match out {
            Ok(bytes) => rewritten_body(body@, token@) == Ok::<Seq<u8>, PlaylistError>(bytes@),
            Err(error) => rewritten_body(body@, token@) == Err::<Seq<u8>, PlaylistError>(error),
        },
{
    match decode(body) {
        Ok(playlist) => {
            let changed = rewrite_variants(playlist, token);
            encode(&changed)
        },
        Err(error) => Err(error),
    }
}

/// Rewriting keeps the variants in number and in order, leaves every
/// attribute of every variant and the directives of the playlist as they
/// were, and makes each URI the token, a slash, and the URI that was there.
pub proof fn lemma_rewritten_changes_uris_only(playlist: ManifestView, token: Seq<char>)
    ensures
        rewritten(playlist, token).variants.len() == playlist.variants.len(),
        rewritten(playlist, token).directives == playlist.directives,
        forall|i: int|
            0 <= i < playlist.variants.len() ==> {
                &&& (#[trigger] rewritten(playlist, token).variants[i]).uri == token + seq!['/']
                    + playlist.variants[i].uri
                &&& rewritten(playlist, token).variants[i].attributes
                    == playlist.variants[i].attributes
            },
{
}

/// Rewriting twice with one token puts the token in front twice: rewriting
/// is not idempotent, and a playlist with a variant differs from itself
/// rewritten.
pub proof fn lemma_rewritten_twice_doubles_prefix(playlist: ManifestView, token: Seq<char>)
    ensures
        rewritten(rewritten(playlist, token), token).variants.len() == playlist.variants.len(),
        forall|i: int|
            0 <= i < playlist.variants.len() ==> (#[trigger] rewritten(
                rewritten(playlist, token),
                token,
            ).variants[i]).uri == token + seq!['/'] + token + seq!['/'] + playlist.variants[i].uri,
        playlist.variants.len() > 0 ==> rewritten(rewritten(playlist, token), token) != rewritten(
            playlist,
            token,
        ),
        playlist.variants.len() > 0 ==> rewritten(playlist, token) != playlist,
{
    let once = rewritten(playlist, token);
    let twice = rewritten(once, token);
    assert forall|i: int| 0 <= i < playlist.variants.len() implies (#[trigger] twice.variants[i]).uri
        == token + seq!['/'] + token + seq!['/'] + playlist.variants[i].uri by {
        assert(twice.variants[i].uri == prefixed(token, once.variants[i].uri));
        assert(prefixed(token, prefixed(token, playlist.variants[i].uri)) =~= token + seq!['/']
            + token + seq!['/'] + playlist.variants[i].uri);
    }
    if playlist.variants.len() > 0 {
        assert(once.variants[0].uri.len() == token.len() + 1 + playlist.variants[0].uri.len());
        assert(twice.variants[0].uri.len() == token.len() + 1 + once.variants[0].uri.len());
    }
}

} // verus!
