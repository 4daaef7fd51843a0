use vstd::prelude::*;

verus! {

/// `ini::Ini`, the file as the crate holds it. Nothing inside it is
/// visible here; what it holds is named by [`ini_entries`].
#[verifier::external_type_specification]
#[verifier::external_body]
pub struct ExIni(ini::Ini);

/// `ini::ParseError`, the crate's error for a text that is no file. It is
/// only carried through.
#[verifier::external_type_specification]
#[verifier::external_body]
pub struct ExParseError(ini::ParseError);

/// What a credentials file holds: the value that it gives for a named
/// section and a key.
pub uninterp spec fn ini_entries(file: ini::Ini) -> Map<(Seq<char>, Seq<char>), Seq<char>>;

/// What a text holds when it is read as a credentials file, where it can
/// be read as one.
pub uninterp spec fn ini_parsed(text: Seq<char>) -> Option<Map<(Seq<char>, Seq<char>), Seq<char>>>;

/// The text of a credentials file, with `\n` at the end of each line.
pub uninterp spec fn ini_rendered(file: ini::Ini) -> Seq<char>;

/// The entries of a file that holds nothing.
pub open spec fn no_entries() -> Map<(Seq<char>, Seq<char>), Seq<char>> {
    Map::empty()
}

/// `ini::Ini::new`: a file without sections.
#[verifier::external_body]
fn ini_new() -> (r: ini::Ini)
    ensures
        ini_entries(r) == no_entries(),
{
    ini::Ini::new()
}

/// `ini::Ini::load_from_str`: the file that a text holds, or the place
/// where the text stops being one.
#[verifier::external_body]
fn ini_load(text: &str) -> (r: Result<ini::Ini, ini::ParseError>)
    ensures
        r is Ok == ini_parsed(text@) is Some,
        r is Ok ==> ini_entries(r->Ok_0) == ini_parsed(text@)->0,
{
    ini::Ini::load_from_str(text)
}

/// `ini::Ini::get_from` with a named section: the first value of the key
/// in that section, if the section has the key.
#[verifier::external_body]
fn ini_get(file: &ini::Ini, section: &str, key: &str) -> (r: Option<String>)
    ensures
        r is Some == ini_entries(*file).contains_key((section@, key@)),
        r is Some ==> r->0@ == ini_entries(*file)[(section@, key@)],
{
    file.get_from(Some(section), key).map(String::from)
}

/// `ini::Ini::with_section` with a named section, then
/// `SectionSetter::set`: the key of that section gets the value, in place
/// of any it had; the section is made where it was missing. No other key
/// changes.
#[verifier::external_body]
fn ini_set(file: &mut ini::Ini, section: &str, key: &str, value: &str)
    ensures
        ini_entries(*final(file)) == ini_entries(*old(file)).insert((section@, key@), value@),
{
    file.with_section(Some(section)).set(key, value);
}

/// `ini::Ini::write_to_opt` into a buffer, with the crate's usual
/// options but for the line separator, which is `\n` on every machine.
#[verifier::external_body]
fn ini_render(file: &ini::Ini) -> (r: String)
    ensures
        r@ == ini_rendered(*file),
{
    let mut out: Vec<u8> = Vec::new();
    let mut opt = ini::WriteOption::default();
    opt.line_separator = ini::LineSeparator::CR;
    let _ = file.write_to_opt(&mut out, opt);
    String::from_utf8_lossy(&out).into_owned()
}

/// The section of the credentials file that holds the tokens.
pub const SECTION: &'static str = "default";

/// The key of the access token.
pub const ACCESS_TOKEN: &'static str = "access_token";

/// The key of the refresh token.
pub const REFRESH_TOKEN: &'static str = "refresh_token";

/// The tokens of one account.
#[derive(Debug, Clone, PartialEq, Eq)]
pub struct Credentials {
    pub access_token: String,
    pub refresh_token: String,
}

/// Mathematical value of [`Credentials`].
pub struct CredentialsView {
    pub access_token: Seq<char>,
    pub refresh_token: Seq<char>,
}

impl View for Credentials {
    type V = CredentialsView;

    open spec fn view(&self) -> CredentialsView {
        CredentialsView { access_token: self.access_token@, refresh_token: self.refresh_token@ }
    }
}

/// The credentials that the entries of a file hold: both tokens under the
/// section of the tokens, or nothing where one is missing.
pub open spec fn held_in(entries: Map<(Seq<char>, Seq<char>), Seq<char>>) -> Option<
    CredentialsView,
> {
    if entries.contains_key((SECTION@, ACCESS_TOKEN@)) && entries.contains_key(
        (SECTION@, REFRESH_TOKEN@),
    ) {
        Some(
            CredentialsView {
                access_token: entries[(SECTION@, ACCESS_TOKEN@)],
                refresh_token: entries[(SECTION@, REFRESH_TOKEN@)],
            },
        )
    } else {
        None
    }
}

/// The entries of a file after the credentials were saved in it: the two
/// tokens replaced, everything else as it was.
pub open spec fn saved_in(
    entries: Map<(Seq<char>, Seq<char>), Seq<char>>,
    credentials: CredentialsView,
) -> Map<(Seq<char>, Seq<char>), Seq<char>> {
    entries.insert((SECTION@, ACCESS_TOKEN@), credentials.access_token).insert(
        (SECTION@, REFRESH_TOKEN@),
        credentials.refresh_token,
    )
}

/// The two keys of the tokens are different keys.
pub proof fn lemma_token_keys_differ()
    ensures
        ACCESS_TOKEN@ != REFRESH_TOKEN@,
{
    reveal_strlit("access_token");
    reveal_strlit("refresh_token");
    assert(ACCESS_TOKEN@.len() == 12);
    assert(REFRESH_TOKEN@.len() == 13);
}

/// Loading after saving gives what was saved, whatever the file held
/// before.
pub proof fn lemma_saved_credentials_load(
    entries: Map<(Seq<char>, Seq<char>), Seq<char>>,
    credentials: CredentialsView,
)
    ensures
        held_in(saved_in(entries, credentials)) == Some(credentials),
{
    lemma_token_keys_differ();
}

/// A credentials file in memory.
pub struct CredentialFile {
    file: ini::Ini,
}

impl View for CredentialFile {
    type V = Map<(Seq<char>, Seq<char>), Seq<char>>;

    closed spec fn view(&self) -> Map<(Seq<char>, Seq<char>), Seq<char>> {
        ini_entries(self.file)
    }
}

impl CredentialFile {
    /// The text that [`CredentialFile::to_text`] gives.
    pub closed spec fn text(&self) -> Seq<char> {
        ini_rendered(self.file)
    }

    /// A file without entries.
    pub fn new() -> (r: CredentialFile)
        ensures
            r@ == no_entries(),
    {
        CredentialFile { file: ini_new() }
    }

    /// Reads a file from its text. `None` where the text is no
    /// credentials file.
    pub fn from_text(text: &str) -> (r: Option<CredentialFile>)
        ensures
            r is Some == ini_parsed(text@) is Some,
            r is Some ==> r->0@ == ini_parsed(text@)->0,
    {
        match ini_load(text) {
            Ok(file) => Some(CredentialFile { file }),
            Err(_) => None,
        }
    }

    /// The text of the file, to be written in one piece.
    pub fn to_text(&self) -> (r: String)
        ensures
            r@ == self.text(),
    {
        ini_render(&self.file)
    }

    /// The stored credentials. `None` where a token is missing.
    pub fn load(&self) -> (r: Option<Credentials>)
        ensures
            r is Some == held_in(self@) is Some,
            r is Some ==> r->0@ == held_in(self@)->0,
    {
        let access_token = match ini_get(&self.file, SECTION, ACCESS_TOKEN) {
            Some(t) => t,
            None => {
                return None;
            },
        };
        let refresh_token = match ini_get(&self.file, SECTION, REFRESH_TOKEN) {
            Some(t) => t,
            None => {
                return None;
            },
        };
        Some(Credentials { access_token, refresh_token })
    }

    /// The stored refresh token, if there is one.
    pub fn refresh_token(&self) -> (r: Option<String>)
        ensures
            r is Some == self@.contains_key((SECTION@, REFRESH_TOKEN@)),
            r is Some ==> r->0@ == self@[(SECTION@, REFRESH_TOKEN@)],
    {
        ini_get(&self.file, SECTION, REFRESH_TOKEN)
    }

    /// Stores both tokens, in place of those the file held.
    pub fn save(&mut self, credentials: &Credentials)
        ensures
            final(self)@ == saved_in(old(self)@, credentials@),
    {
        ini_set(&mut self.file, SECTION, ACCESS_TOKEN, credentials.access_token.as_str());
        ini_set(&mut self.file, SECTION, REFRESH_TOKEN, credentials.refresh_token.as_str());
    }

    /// Stores a new access token and leaves every other entry alone.
    pub fn set_access_token(&mut self, access_token: &str)
        ensures
            final(self)@ == old(self)@.insert((SECTION@, ACCESS_TOKEN@), access_token@),
    {
        ini_set(&mut self.file, SECTION, ACCESS_TOKEN, access_token);
    }
}

} // verus!
