//! The store of named secrets ("profiles"): validation, insertion, lookup and removal.

use vstd::prelude::*;
use vstd::utf8::{encode_utf8, is_ascii_chars};

verus! {

broadcast use vstd::utf8::group_utf8_lib;

/// Why a profile was refused. Each variant carries its message.
#[derive(Debug, PartialEq)]
pub enum ValidationError {
    /// A field holds a character that it may not hold.
    IllegalCharacter(&'static str),
    /// A field is shorter than allowed.
    TooShortLength(&'static str),
    /// A field is longer than allowed.
    TooLongLength(&'static str),
    /// The value of a field is registered already.
    Deplication(&'static str),
    /// A field must not be empty.
    Requires(&'static str),
}

/// The message for a name with a character that names may not hold.
pub const ILLEGAL_NAME_MESSAGE: &'static str = "Name can contain only alphabet, number and symbol (@-_) .";

/// The message for a name that is too short.
pub const SHORT_NAME_MESSAGE: &'static str = "Name requires at least 3 characters.";

/// The message for a name that is too long.
pub const LONG_NAME_MESSAGE: &'static str = "Name requires 20 characters or less.";

/// The message for a name that the store holds already.
pub const DUPLICATE_NAME_MESSAGE: &'static str = "This name already exists.";

/// The message for an empty secret.
pub const MISSING_SECRET_MESSAGE: &'static str = "Secret must be present.";

/// The fewest bytes a name may have.
pub const MIN_NAME_BYTES: usize = 3;

/// The most bytes a name may have.
pub const MAX_NAME_BYTES: usize = 20;

impl ValidationError {
    /// The message that the error carries.
    pub open spec fn text(self) -> &'static str {
        match self {
            ValidationError::IllegalCharacter(m) => m,
            ValidationError::TooShortLength(m) => m,
            ValidationError::TooLongLength(m) => m,
            ValidationError::Deplication(m) => m,
            ValidationError::Requires(m) => m,
        }
    }

    /// The message that the error carries, as a `String`.
    pub fn message(&self) -> (r: String)
        ensures
            r@ == self.text()@,
    {
        let text: &'static str = match self {
            ValidationError::IllegalCharacter(m) => m,
            ValidationError::TooShortLength(m) => m,
            ValidationError::TooLongLength(m) => m,
            ValidationError::Deplication(m) => m,
            ValidationError::Requires(m) => m,
        };
        String::from_str(text)
    }
}

/// A character that a name may hold: an ASCII letter or digit, `_`, `@` or `-`.
pub open spec fn is_name_char(c: char) -> bool {
    ||| '0' <= c <= '9'
    ||| 'A' <= c <= 'Z'
    ||| 'a' <= c <= 'z'
    ||| c == '_'
    ||| c == '@'
    ||| c == '-'
}

/// The checks on a name, in order: its UTF-8 length in bytes, then its characters.
pub open spec fn name_check(name: Seq<char>) -> Result<(), ValidationError> {
    let bytes = encode_utf8(name).len();
    if bytes < MIN_NAME_BYTES {
        Err(ValidationError::TooShortLength(SHORT_NAME_MESSAGE))
    } else if bytes > MAX_NAME_BYTES {
        Err(ValidationError::TooLongLength(LONG_NAME_MESSAGE))
    } else if !(forall|i: int| 0 <= i < name.len() ==> is_name_char(#[trigger] name[i])) {
        Err(ValidationError::IllegalCharacter(ILLEGAL_NAME_MESSAGE))
    } else {
        Ok(())
    }
}

/// The checks on a profile's own fields: the name, then that the secret is not empty.
pub open spec fn fields_check(name: Seq<char>, secret: Seq<char>) -> Result<(), ValidationError> {
    if name_check(name) is Err {
        name_check(name)
    } else if secret.len() == 0 {
        Err(ValidationError::Requires(MISSING_SECRET_MESSAGE))
    } else {
        Ok(())
    }
}

/// A store in its mathematical form: the profiles in order, each as (name, secret).
pub type StoreView = Seq<(Seq<char>, Seq<char>)>;

/// Whether some profile of the store has this name.
pub open spec fn contains_name(store: StoreView, name: Seq<char>) -> bool {
    exists|i: int| 0 <= i < store.len() && (#[trigger] store[i]).0 == name
}

/// Whether `i` is the first position whose profile has this name.
pub open spec fn is_first_with_name(store: StoreView, name: Seq<char>, i: int) -> bool {
    &&& 0 <= i < store.len()
    &&& store[i].0 == name
    &&& forall|j: int| 0 <= j < i ==> (#[trigger] store[j]).0 != name
}

/// The first position whose profile has this name (meaningful where there is one).
pub open spec fn first_index(store: StoreView, name: Seq<char>) -> int {
    choose|i: int| is_first_with_name(store, name, i)
}

/// The stored (encoded) secret of the first profile with this name.
pub open spec fn stored_secret(store: StoreView, name: Seq<char>) -> Option<Seq<char>> {
    if contains_name(store, name) {
        Some(store[first_index(store, name)].1)
    } else {
        None
    }
}

/// The decoded secret of the first profile with this name, where there is one and its text
/// is base32.
pub open spec fn decoded_secret(store: StoreView, name: Seq<char>) -> Option<Seq<u8>> {
    match stored_secret(store, name) {
        Some(secret) => base32_decoded(secret),
        None => None,
    }
}

/// The checks made before a profile joins the store: its fields, then that its name is new.
pub open spec fn profile_check(store: StoreView, name: Seq<char>, secret: Seq<char>) -> Result<
    (),
    ValidationError,
> {
    if fields_check(name, secret) is Err {
        fields_check(name, secret)
    } else if contains_name(store, name) {
        Err(ValidationError::Deplication(DUPLICATE_NAME_MESSAGE))
    } else {
        Ok(())
    }
}

/// No two profiles of the store share a name.
pub open spec fn names_unique(store: StoreView) -> bool {
    forall|i: int, j: int|
        0 <= i < store.len() && 0 <= j < store.len() && i != j ==> (#[trigger] store[i]).0 != (
        #[trigger] store[j]).0
}

/// The bytes of an optional byte vector.
pub open spec fn bytes_view(r: Option<Vec<u8>>) -> Option<Seq<u8>> {
    match r {
        Some(v) => Some(v@),
        None => None,
    }
}

/// What `base32::decode` gives for a text, with the RFC 4648 alphabet and padding.
pub uninterp spec fn base32_decoded(text: Seq<char>) -> Option<Seq<u8>>;

/// Relies on `base32::decode(Alphabet::RFC4648 { padding: true }, _)`: the decoded bytes, or
/// `None` for a text that is not base32; the result depends on the text only.
#[verifier::external_body]
fn decode_base32(text: &str) -> (r: Option<Vec<u8>>)
    ensures
        bytes_view(r) == base32_decoded(text@),
{
    base32::decode(base32::Alphabet::RFC4648 { padding: true }, text)
}

/// A named secret. The secret is kept as the user gave it, in base32.
pub struct Profile {
    name: String,
    secret: String,
}

impl View for Profile {
    type V = (Seq<char>, Seq<char>);

    closed spec fn view(&self) -> (Seq<char>, Seq<char>) {
        (self.name@, self.secret@)
    }
}

impl Profile {
    pub fn new(name: &str, secret: &str) -> (r: Self)
        ensures
            r@ == (name@, secret@),
    {
        Profile { name: String::from_str(name), secret: String::from_str(secret) }
    }

    pub fn get_name(&self) -> (r: &String)
        ensures
            r@ == self@.0,
    {
        &self.name
    }

    /// The secret as stored, still encoded.
    pub fn get_encoded_secret(&self) -> (r: &String)
        ensures
            r@ == self@.1,
    {
        &self.secret
    }

    /// The decoded secret, or `None` where the stored text is not base32.
    pub fn get_secret(&self) -> (r: Option<Vec<u8>>)
        ensures
            bytes_view(r) == base32_decoded(self@.1),
    {
        decode_base32(self.secret.as_str())
    }

    /// Checks the name, then the secret.
    pub fn is_vaild(&self) -> (r: Result<(), ValidationError>)
        ensures
            r == fields_check(self@.0, self@.1),
    {
        match self.is_valid_name() {
            Ok(()) => {},
            Err(e) => return Err(e),
        }
        self.is_valid_secret()
    }

    /// A name has 3 to 20 bytes, each an ASCII letter or digit, `_`, `@` or `-`.
    fn is_valid_name(&self) -> (r: Result<(), ValidationError>)
        ensures
            r == name_check(self@.0),
    {
        let text: &str = self.name.as_str();
        let bytes: &[u8] = text.as_bytes();
        let len: usize = bytes.len();
        if len < MIN_NAME_BYTES {
            return Err(ValidationError::TooShortLength(SHORT_NAME_MESSAGE));
        }
        if MAX_NAME_BYTES < len {
            return Err(ValidationError::TooLongLength(LONG_NAME_MESSAGE));
        }
        if !text.is_ascii() {
            proof {
                let name = self.name@;
                let k = choose|k: int| 0 <= k < name.len() && !('\0' <= #[trigger] name[k] <= '\u{7f}');
                assert(!is_name_char(name[k]));
            }
            return Err(ValidationError::IllegalCharacter(ILLEGAL_NAME_MESSAGE));
        }
        let ghost name = self.name@;
        assert(bytes@.len() == name.len());
        let mut i: usize = 0;
        while i < len
            invariant
                i <= len,
                MIN_NAME_BYTES <= len <= MAX_NAME_BYTES,
                name == self.name@,
                len == bytes@.len(),
                bytes@ == encode_utf8(name),
                is_ascii_chars(name),
                len == name.len(),
                forall|j: int| 0 <= j < i ==> is_name_char(#[trigger] name[j]),
            decreases len - i,
        {
            let b: u8 = bytes[i];
            assert(name[i as int] as u8 == b);
            assert(name[i as int] as u32 == b as u32);
            let allowed: bool = (48 <= b && b <= 57) || (65 <= b && b <= 90) || (97 <= b && b
                <= 122) || b == 95 || b == 64 || b == 45;
            if !allowed {
                assert(!is_name_char(name[i as int]));
                return Err(ValidationError::IllegalCharacter(ILLEGAL_NAME_MESSAGE));
            }
            i = i + 1;
        }
        Ok(())
    }

    fn is_valid_secret(&self) -> (r: Result<(), ValidationError>)
        ensures
            self@.1.len() == 0 ==> r == Err::<(), ValidationError>(
                ValidationError::Requires(MISSING_SECRET_MESSAGE),
            ),
            self@.1.len() != 0 ==> r == Ok::<(), ValidationError>(()),
    {
        if self.secret.as_str().is_empty() {
            return Err(ValidationError::Requires(MISSING_SECRET_MESSAGE));
        }
        Ok(())
    }
}

/// The message of the error for removing a name that no profile has.
pub open spec fn not_found_error(name: Seq<char>) -> Seq<char> {
    "Can't find this profile: "@ + name
}

/// Where `i` is the first position with the name, it is the one that `first_index` picks.
proof fn lemma_first_index(store: StoreView, name: Seq<char>, i: int)
    requires
        is_first_with_name(store, name, i),
    ensures
        first_index(store, name) == i,
        contains_name(store, name),
{
    let k = first_index(store, name);
    assert(is_first_with_name(store, name, k));
    if k < i {
        assert(store[k].0 != name);
    } else if i < k {
        assert(store[i].0 != name);
    }
}

/// Name rules, whatever the store and secret: a name whose UTF-8 form has fewer than 3 bytes
/// is too short and one with more than 20 too long; a name of allowed length that holds a
/// non-ASCII character, or any character but an ASCII letter, digit, `@`, `-` or `_`, has an
/// illegal character; a name of 3 to 20 such characters passes the name checks, and the
/// profile is accepted where its secret is not empty and its name is new.
pub proof fn lemma_name_rules(store: StoreView, name: Seq<char>, secret: Seq<char>)
    ensures
        encode_utf8(name).len() < 3 ==> profile_check(store, name, secret) == Err::<
            (),
            ValidationError,
        >(ValidationError::TooShortLength(SHORT_NAME_MESSAGE)),
        encode_utf8(name).len() > 20 ==> profile_check(store, name, secret) == Err::<
            (),
            ValidationError,
        >(ValidationError::TooLongLength(LONG_NAME_MESSAGE)),
        3 <= encode_utf8(name).len() <= 20 && (exists|i: int|
            0 <= i < name.len() && !is_name_char(#[trigger] name[i])) ==> profile_check(
            store,
            name,
            secret,
        ) == Err::<(), ValidationError>(ValidationError::IllegalCharacter(ILLEGAL_NAME_MESSAGE)),
        3 <= encode_utf8(name).len() <= 20 && (exists|i: int|
            0 <= i < name.len() && #[trigger] name[i] > '\u{7f}') ==> profile_check(
            store,
            name,
            secret,
        ) == Err::<(), ValidationError>(ValidationError::IllegalCharacter(ILLEGAL_NAME_MESSAGE)),
        (forall|i: int| 0 <= i < name.len() ==> is_name_char(#[trigger] name[i])) && 3
            <= name.len() <= 20 ==> name_check(name) is Ok,
        (forall|i: int| 0 <= i < name.len() ==> is_name_char(#[trigger] name[i])) && 3
            <= name.len() <= 20 && secret.len() > 0 && !contains_name(store, name)
            ==> profile_check(store, name, secret) is Ok,
{
    if exists|i: int| 0 <= i < name.len() && #[trigger] name[i] > '\u{7f}' {
        let i = choose|i: int| 0 <= i < name.len() && #[trigger] name[i] > '\u{7f}';
        assert(!is_name_char(name[i]));
    }
    if forall|i: int| 0 <= i < name.len() ==> is_name_char(#[trigger] name[i]) {
        assert(is_ascii_chars(name));
    }
}

/// A name that the store holds already is refused, whatever the secret.
pub proof fn lemma_duplicate_refused(store: StoreView, name: Seq<char>, secret: Seq<char>)
    requires
        contains_name(store, name),
    ensures
        profile_check(store, name, secret) is Err,
{
}

/// In a store with unique names, removing a present name takes exactly one profile away, and
/// afterwards no profile has the name and no secret is found for it.
pub proof fn lemma_remove_then_absent(store: StoreView, name: Seq<char>)
    requires
        names_unique(store),
        contains_name(store, name),
    ensures
        store.remove(first_index(store, name)).len() == store.len() - 1,
        !contains_name(store.remove(first_index(store, name)), name),
        decoded_secret(store.remove(first_index(store, name)), name) is None,
{
    let i = choose|i: int| 0 <= i < store.len() && (#[trigger] store[i]).0 == name;
    assert forall|j: int| 0 <= j < i implies (#[trigger] store[j]).0 != name by {
        assert(store[i].0 == name);
    }
    lemma_first_index(store, name, i);
    let s = store.remove(i);
    assert forall|k: int| 0 <= k < s.len() implies (#[trigger] s[k]).0 != name by {
        if k < i {
            assert(s[k] == store[k]);
        } else {
            assert(s[k] == store[k + 1]);
        }
    }
}

/// The profiles, in the order they were added. Names are unique where every profile came in
/// through `new_profile`.
pub struct Config {
    profiles: Vec<Profile>,
}

impl View for Config {
    type V = StoreView;

    closed spec fn view(&self) -> StoreView {
        self.profiles@.map_values(|p: Profile| p@)
    }
}

impl Default for Config {
    fn default() -> (r: Self)
        ensures
            r@ == Seq::<(Seq<char>, Seq<char>)>::empty(),
    {
        let r = Config { profiles: Vec::new() };
        assert(r@ =~= Seq::<(Seq<char>, Seq<char>)>::empty());
        r
    }
}

impl Config {
    /// A store that holds these profiles, in this order, as they are.
    pub fn from_profiles(profiles: Vec<Profile>) -> (r: Self)
        ensures
            r@ == profiles@.map_values(|p: Profile| p@),
    {
        Config { profiles }
    }

    /// Adds a profile at the end, where its fields are valid and its name is new.
    pub fn new_profile(&mut self, name: &str, secret: &str) -> (r: Result<(), ValidationError>)
        ensures
            r == profile_check(old(self)@, name@, secret@),
            r is Ok ==> final(self)@ == old(self)@.push((name@, secret@)),
            r is Err ==> final(self)@ == old(self)@,
            contains_name(old(self)@, name@) ==> r is Err && final(self)@ == old(self)@,
            names_unique(old(self)@) ==> names_unique(final(self)@),
    {
        let r = self.push_profile(Profile::new(name, secret));
        proof {
            if r is Ok {
                let s = final(self)@;
                assert forall|i: int, j: int|
                    names_unique(old(self)@) && 0 <= i < s.len() && 0 <= j < s.len() && i != j
                        implies (#[trigger] s[i]).0 != (#[trigger] s[j]).0 by {
                    if i == s.len() - 1 {
                        assert(s[j] == old(self)@[j]);
                    } else if j == s.len() - 1 {
                        assert(s[i] == old(self)@[i]);
                    } else {
                        assert(s[i] == old(self)@[i]);
                        assert(s[j] == old(self)@[j]);
                    }
                }
            }
        }
        r
    }

    fn push_profile(&mut self, profile: Profile) -> (r: Result<(), ValidationError>)
        ensures
            r == profile_check(old(self)@, profile@.0, profile@.1),
            r is Ok ==> final(self)@ == old(self)@.push(profile@),
            r is Err ==> final(self)@ == old(self)@,
    {
        match self.validate_profile(&profile) {
            Ok(()) => {
                let ghost view = profile@;
                self.profiles.push(profile);
                assert(self@ =~= old(self)@.push(view));
                Ok(())
            },
            Err(err) => Err(err),
        }
    }

    fn validate_profile(&self, profile: &Profile) -> (r: Result<(), ValidationError>)
        ensures
            r == profile_check(self@, profile@.0, profile@.1),
    {
        match profile.is_vaild() {
            Ok(()) => {},
            Err(err) => return Err(err),
        }
        if self.find_by_name(profile.get_name().as_str()).is_some() {
            return Err(ValidationError::Deplication(DUPLICATE_NAME_MESSAGE));
        }
        Ok(())
    }

    /// The decoded secret of the profile with this name; `None` where no profile has the name
    /// or its secret is not base32.
    pub fn get_secret_by_name(&self, name: &str) -> (r: Option<Vec<u8>>)
        ensures
            bytes_view(r) == decoded_secret(self@, name@),
    {
        match self.find_by_name(name) {
            Some(i) => {
                proof {
                    lemma_first_index(self@, name@, i as int);
                }
                self.profiles[i].get_secret()
            },
            None => None,
        }
    }

    /// The profiles, in order.
    pub fn get_profiles(&self) -> (r: &Vec<Profile>)
        ensures
            r@.map_values(|p: Profile| p@) == self@,
    {
        &self.profiles
    }

    /// Removes the first profile with this name.
    pub fn remove_profile(&mut self, name: &str) -> (r: Result<(), String>)
        ensures
            match r {
                Ok(()) => {
                    &&& contains_name(old(self)@, name@)
                    &&& final(self)@ == old(self)@.remove(first_index(old(self)@, name@))
                },
                Err(msg) => {
                    &&& !contains_name(old(self)@, name@)
                    &&& final(self)@ == old(self)@
                    &&& msg@ == not_found_error(name@)
                },
            },
            r is Ok ==> final(self)@.len() == old(self)@.len() - 1,
            r is Ok && names_unique(old(self)@) ==> !contains_name(final(self)@, name@),
    {
        match self.find_by_name(name) {
            Some(i) => {
                proof {
                    lemma_first_index(self@, name@, i as int);
                }
                self.profiles.remove(i);
                let ghost s = old(self)@.remove(i as int);
                assert(self@ =~= s);
                proof {
                    if names_unique(old(self)@) {
                        assert forall|k: int| 0 <= k < s.len() implies (#[trigger] s[k]).0
                            != name@ by {
                            if k < i {
                                assert(s[k] == old(self)@[k]);
                            } else {
                                assert(s[k] == old(self)@[k + 1]);
                            }
                        }
                    }
                }
                Ok(())
            },
            None => {
                let mut msg = String::from_str("Can't find this profile: ");
                msg.append(name);
                Err(msg)
            },
        }
    }

    /// The position of the first profile with this name.
    fn find_by_name(&self, name: &str) -> (r: Option<usize>)
        ensures
            r is None <==> !contains_name(self@, name@),
            r matches Some(i) ==> is_first_with_name(self@, name@, i as int),
    {
        let wanted = String::from_str(name);
        let mut i: usize = 0;
        while i < self.profiles.len()
            invariant
                i <= self.profiles@.len(),
                wanted@ == name@,
                forall|j: int| 0 <= j < i ==> (#[trigger] self@[j]).0 != name@,
            decreases self.profiles@.len() - i,
        {
            if self.profiles[i].name == wanted {
                assert(self@[i as int] == self.profiles@[i as int]@);
                return Some(i);
            }
            assert(self@[i as int] == self.profiles@[i as int]@);
            i = i + 1;
        }
        None
    }
}

} // verus!
