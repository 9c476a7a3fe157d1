use vstd::prelude::*;

verus! {

/// Result type used by gatekeep constructors and validators.
pub type GatekeepResult<T> = Result<T, GatekeepError>;

/// Maximum UTF-8 byte length shared with tenant routing values.
pub const MAX_TENANT_ID_BYTES: usize = 255;

/// Validation errors returned by typed gatekeep records.
#[derive(Debug, Clone, PartialEq, Eq)]
pub enum GatekeepError {
    /// Identifier input was empty or whitespace only.
    EmptyIdentifier {
        /// Name of the identifier field that failed validation.
        field: &'static str,
    },
    /// An identifier uses a prefix reserved for imported legacy identities.
    ReservedIdentifierPrefix {
        /// Name of the identifier field that failed validation.
        field: &'static str,
        /// Prefix reserved for migration identities.
        prefix: &'static str,
    },
    /// Locale input was not a simple language tag.
    InvalidLocale {
        /// Rejected locale value.
        value: String,
    },
    /// A legacy decision identity was missing the migration namespace.
    InvalidLegacyIdentifier {
        /// Rejected imported identity.
        value: String,
    },
    /// A policy model record failed structural validation.
    InvalidPolicyRecord {
        /// Static validation reason.
        reason: &'static str,
    },
    /// A tenant identifier exceeds the shared UTF-8 byte bound.
    TenantIdTooLong {
        /// Maximum accepted UTF-8 byte length.
        max_bytes: usize,
        /// Rejected UTF-8 byte length.
        actual_bytes: usize,
    },
    /// A tenant identifier contains a forbidden Unicode control character.
    TenantIdControlCharacter {
        /// Rejected Unicode scalar value.
        code_point: u32,
    },
    /// A tenant identifier contains a Unicode noncharacter.
    TenantIdNoncharacter {
        /// Rejected Unicode scalar value.
        code_point: u32,
    },
}

/// Unicode `White_Space` property, as `char::is_whitespace` documents it.
pub open spec fn is_whitespace_char(c: char) -> bool {
    let cp = c as u32;
    ||| (0x9 <= cp && cp <= 0xD)
    ||| cp == 0x20
    ||| cp == 0x85
    ||| cp == 0xA0
    ||| cp == 0x1680
    ||| (0x2000 <= cp && cp <= 0x200A)
    ||| cp == 0x2028
    ||| cp == 0x2029
    ||| cp == 0x202F
    ||| cp == 0x205F
    ||| cp == 0x3000
}

/// Unicode general category `Cc`, as `char::is_control` documents it.
pub open spec fn is_control_char(c: char) -> bool {
    let cp = c as u32;
    cp <= 0x1F || (0x7F <= cp && cp <= 0x9F)
}

/// Unicode noncharacter code points rejected in tenant identifiers.
pub open spec fn is_noncharacter(cp: u32) -> bool {
    (0xFDD0 <= cp && cp <= 0xFDEF) || cp & 0xFFFF == 0xFFFF || cp & 0xFFFF == 0xFFFE
}

/// Every character is white space (true for the empty string), i.e. `trim()` leaves nothing.
pub open spec fn blank(s: Seq<char>) -> bool {
    forall|i: int| 0 <= i < s.len() ==> is_whitespace_char(#[trigger] s[i])
}

/// The reserved migration prefix `legacy-`.
pub open spec fn legacy_prefix() -> Seq<char> {
    seq!['l', 'e', 'g', 'a', 'c', 'y', '-']
}

/// `s` starts with the reserved migration prefix.
pub open spec fn has_legacy_prefix(s: Seq<char>) -> bool {
    s.len() >= 7 && s.subrange(0, 7) == legacy_prefix()
}

/// Outcome of ordinary identifier validation.
pub open spec fn identifier_check(field: &'static str, reserve_legacy: bool, s: Seq<char>) -> Result<
    Seq<char>,
    GatekeepError,
> {
    if blank(s) {
        Err(GatekeepError::EmptyIdentifier { field })
    } else if reserve_legacy && has_legacy_prefix(s) {
        Err(GatekeepError::ReservedIdentifierPrefix { field, prefix: "legacy-" })
    } else {
        Ok(s)
    }
}

/// Static identifiers must not be empty or consist of white space only.
pub open spec fn static_id_ok(s: Seq<char>) -> bool {
    !blank(s)
}

/// Number of bytes in the UTF-8 encoding of `s`, as `str::len` reports it.
pub open spec fn utf8_len(s: Seq<char>) -> usize {
    vstd::utf8::encode_utf8(s).len() as usize
}

/// The first forbidden tenant character at or after `i`, as the error that reports it.
pub open spec fn tenant_char_fault(s: Seq<char>, i: int) -> Option<GatekeepError>
    decreases s.len() - i,
{
    if 0 <= i < s.len() {
        let cp = s[i] as u32;
        if is_control_char(s[i]) {
            Some(GatekeepError::TenantIdControlCharacter { code_point: cp })
        } else if is_noncharacter(cp) {
            Some(GatekeepError::TenantIdNoncharacter { code_point: cp })
        } else {
            tenant_char_fault(s, i + 1)
        }
    } else {
        None
    }
}

/// Outcome of tenant identifier validation.
pub open spec fn tenant_check(s: Seq<char>) -> Result<Seq<char>, GatekeepError> {
    if blank(s) {
        Err(GatekeepError::EmptyIdentifier { field: "tenant_id" })
    } else if utf8_len(s) > MAX_TENANT_ID_BYTES {
        Err(
            GatekeepError::TenantIdTooLong {
                max_bytes: MAX_TENANT_ID_BYTES,
                actual_bytes: utf8_len(s),
            },
        )
    } else {
        match tenant_char_fault(s, 0) {
            Some(e) => Err(e),
            None => Ok(s),
        }
    }
}

/// Static tenant identifiers obey the owned tenant rules.
pub open spec fn static_tenant_ok(s: Seq<char>) -> bool {
    tenant_check(s) is Ok
}

/// ASCII letter or digit.
pub open spec fn is_ascii_alphanumeric_char(c: char) -> bool {
    ('0' <= c && c <= '9') || ('a' <= c && c <= 'z') || ('A' <= c && c <= 'Z')
}

/// A locale tag is non-blank ASCII alphanumerics and `-`.
pub open spec fn locale_ok(s: Seq<char>) -> bool {
    &&& !blank(s)
    &&& forall|i: int| 0 <= i < s.len() ==> is_ascii_alphanumeric_char(#[trigger] s[i]) || s[i] == '-'
}

/// Checks `char::is_whitespace`.
pub fn is_whitespace(c: char) -> (b: bool)
    ensures
        b == is_whitespace_char(c),
{
    let cp = c as u32;
    (0x9 <= cp && cp <= 0xD) || cp == 0x20 || cp == 0x85 || cp == 0xA0 || cp == 0x1680 || (0x2000
        <= cp && cp <= 0x200A) || cp == 0x2028 || cp == 0x2029 || cp == 0x202F || cp == 0x205F
        || cp == 0x3000
}

/// Checks `char::is_control`.
pub fn is_control(c: char) -> (b: bool)
    ensures
        b == is_control_char(c),
{
    let cp = c as u32;
    cp <= 0x1F || (0x7F <= cp && cp <= 0x9F)
}

/// Collects the characters of a string.
pub fn chars_of(s: &str) -> (v: Vec<char>)
    ensures
        v@ == s@,
{
    let n = s.unicode_len();
    let mut v: Vec<char> = Vec::new();
    let mut i: usize = 0;
    while i < n
        invariant
            n == s@.len(),
            i <= n,
            v@ == s@.subrange(0, i as int),
        decreases n - i,
    {
        let c = s.get_char(i);
        v.push(c);
        i = i + 1;
        assert(v@ =~= s@.subrange(0, i as int));
    }
    assert(v@ =~= s@);
    v
}

/// Whether every character is white space, i.e. whether `trim()` would leave nothing.
pub fn is_blank(s: &str) -> (b: bool)
    ensures
        b == blank(s@),
{
    let cs = chars_of(s);
    let mut i: usize = 0;
    while i < cs.len()
        invariant
            cs@ == s@,
            i <= cs.len(),
            forall|j: int| 0 <= j < i ==> is_whitespace_char(#[trigger] s@[j]),
        decreases cs.len() - i,
    {
        if !is_whitespace(cs[i]) {
            return false;
        }
        i = i + 1;
    }
    true
}

/// Whether `s` starts with `legacy-`.
pub(crate) fn starts_with_legacy(s: &str) -> (b: bool)
    ensures
        b == has_legacy_prefix(s@),
{
    let cs = chars_of(s);
    if cs.len() < 7 {
        return false;
    }
    let b = cs[0] == 'l' && cs[1] == 'e' && cs[2] == 'g' && cs[3] == 'a' && cs[4] == 'c' && cs[5]
        == 'y' && cs[6] == '-';
    assert(b == (s@.subrange(0, 7) =~= legacy_prefix()));
    b
}

fn validate_identifier(field: &'static str, reserve_legacy: bool, value: &str) -> (result:
    GatekeepResult<String>)
    ensures
        match identifier_check(field, reserve_legacy, value@) {
            Ok(v) => result matches Ok(s) && s@ == v,
            Err(e) => result == Err::<String, GatekeepError>(e),
        },
{
    if is_blank(value) {
        Err(GatekeepError::EmptyIdentifier { field })
    } else if reserve_legacy && starts_with_legacy(value) {
        Err(GatekeepError::ReservedIdentifierPrefix { field, prefix: "legacy-" })
    } else {
        Ok(value.to_owned())
    }
}

fn validate_tenant_id(value: &str) -> (result: GatekeepResult<String>)
    ensures
        match tenant_check(value@) {
            Ok(v) => result matches Ok(s) && s@ == v,
            Err(e) => result == Err::<String, GatekeepError>(e),
        },
{
    if is_blank(value) {
        return Err(GatekeepError::EmptyIdentifier { field: "tenant_id" });
    }
    let bytes = value.len();
    if bytes > MAX_TENANT_ID_BYTES {
        return Err(GatekeepError::TenantIdTooLong { max_bytes: MAX_TENANT_ID_BYTES, actual_bytes: bytes });
    }
    let cs = chars_of(value);
    let mut i: usize = 0;
    while i < cs.len()
        invariant
            cs@ == value@,
            i <= cs.len(),
            !blank(value@),
            utf8_len(value@) <= MAX_TENANT_ID_BYTES,
            tenant_char_fault(value@, 0) == tenant_char_fault(value@, i as int),
        decreases cs.len() - i,
    {
        let character = cs[i];
        let code_point = character as u32;
        if is_control(character) {
            return Err(GatekeepError::TenantIdControlCharacter { code_point });
        }
        if (0xFDD0 <= code_point && code_point <= 0xFDEF) || code_point & 0xFFFF == 0xFFFF
            || code_point & 0xFFFF == 0xFFFE {
            return Err(GatekeepError::TenantIdNoncharacter { code_point });
        }
        i = i + 1;
    }
    Ok(value.to_owned())
}

fn locale_chars(value: &str) -> (b: bool)
    ensures
        b == forall|i: int|
            0 <= i < value@.len() ==> is_ascii_alphanumeric_char(#[trigger] value@[i]) || value@[i]
                == '-',
{
    let cs = chars_of(value);
    let mut i: usize = 0;
    while i < cs.len()
        invariant
            cs@ == value@,
            i <= cs.len(),
            forall|j: int|
                0 <= j < i ==> is_ascii_alphanumeric_char(#[trigger] value@[j]) || value@[j] == '-',
        decreases cs.len() - i,
    {
        let c = cs[i];
        if !(('0' <= c && c <= '9') || ('a' <= c && c <= 'z') || ('A' <= c && c <= 'Z') || c
            == '-') {
            return false;
        }
        i = i + 1;
    }
    true
}

fn validate_locale(value: &str) -> (result: GatekeepResult<String>)
    ensures
        locale_ok(value@) ==> (result matches Ok(s) && s@ == value@),
        !locale_ok(value@) ==> (result matches Err(GatekeepError::InvalidLocale { value: v })
            && v@ == value@),
{
    if !is_blank(value) && locale_chars(value) {
        Ok(value.to_owned())
    } else {
        Err(GatekeepError::InvalidLocale { value: value.to_owned() })
    }
}

/// A static identifier passes ordinary validation.
pub proof fn lemma_static_id_passes(s: Seq<char>)
    requires
        static_id_ok(s),
    ensures
        forall|field: &'static str| identifier_check(field, false, s) == Ok::<Seq<char>, GatekeepError>(s),
{
}

/// Owned, validated identifier of a named fact.
#[derive(Clone, Debug, PartialEq, Eq, PartialOrd, Ord, Hash)]
pub struct FactId(String);

impl View for FactId {
    type V = Seq<char>;

    closed spec fn view(&self) -> Seq<char> {
        self.0@
    }
}

impl DeepView for FactId {
    type V = Seq<char>;

    open spec fn deep_view(&self) -> Seq<char> {
        self@
    }
}

impl FactId {
    /// Creates a validated identifier; whitespace-only input is rejected.
    pub fn new(value: &str) -> (result: GatekeepResult<Self>)
        ensures
            match identifier_check("fact_id", false, value@) {
                Ok(v) => result matches Ok(id) && id@ == v,
                Err(e) => result == Err::<Self, GatekeepError>(e),
            },
    {
        match validate_identifier("fact_id", false, value) {
            Ok(v) => Ok(FactId(v)),
            Err(e) => Err(e),
        }
    }

    pub(crate) fn from_trusted(value: &str) -> (id: Self)
        ensures
            id@ == value@,
    {
        FactId(value.to_owned())
    }

    /// Returns the identifier as a string slice.
    pub fn as_str(&self) -> (s: &str)
        ensures
            s@ == self@,
    {
        self.0.as_str()
    }

    /// Returns an identical copy of this identifier.
    pub fn duplicate(&self) -> (id: Self)
        ensures
            id == *self,
    {
        FactId(self.0.clone())
    }

    /// Compares two identifiers by content.
    pub fn same(&self, other: &Self) -> (b: bool)
        ensures
            b == (self@ == other@),
    {
        self.0 == other.0
    }
}

/// Owned, validated identifier of a policy clause label.
#[derive(Clone, Debug, PartialEq, Eq, PartialOrd, Ord, Hash)]
pub struct ClauseLabel(String);

impl View for ClauseLabel {
    type V = Seq<char>;

    closed spec fn view(&self) -> Seq<char> {
        self.0@
    }
}

impl DeepView for ClauseLabel {
    type V = Seq<char>;

    open spec fn deep_view(&self) -> Seq<char> {
        self@
    }
}

impl ClauseLabel {
    /// Creates a validated identifier; whitespace-only input is rejected.
    pub fn new(value: &str) -> (result: GatekeepResult<Self>)
        ensures
            match identifier_check("clause_label", false, value@) {
                Ok(v) => result matches Ok(id) && id@ == v,
                Err(e) => result == Err::<Self, GatekeepError>(e),
            },
    {
        match validate_identifier("clause_label", false, value) {
            Ok(v) => Ok(ClauseLabel(v)),
            Err(e) => Err(e),
        }
    }

    pub(crate) fn from_trusted(value: &str) -> (id: Self)
        ensures
            id@ == value@,
    {
        ClauseLabel(value.to_owned())
    }

    /// Returns the identifier as a string slice.
    pub fn as_str(&self) -> (s: &str)
        ensures
            s@ == self@,
    {
        self.0.as_str()
    }

    /// Returns an identical copy of this identifier.
    pub fn duplicate(&self) -> (id: Self)
        ensures
            id == *self,
    {
        ClauseLabel(self.0.clone())
    }

    /// Compares two identifiers by content.
    pub fn same(&self, other: &Self) -> (b: bool)
        ensures
            b == (self@ == other@),
    {
        self.0 == other.0
    }
}

/// Owned, validated identifier of an application obligation.
#[derive(Clone, Debug, PartialEq, Eq, PartialOrd, Ord, Hash)]
pub struct ObligationId(String);

impl View for ObligationId {
    type V = Seq<char>;

    closed spec fn view(&self) -> Seq<char> {
        self.0@
    }
}

impl DeepView for ObligationId {
    type V = Seq<char>;

    open spec fn deep_view(&self) -> Seq<char> {
        self@
    }
}

impl ObligationId {
    /// Creates a validated identifier; whitespace-only input is rejected.
    pub fn new(value: &str) -> (result: GatekeepResult<Self>)
        ensures
            match identifier_check("obligation_id", false, value@) {
                Ok(v) => result matches Ok(id) && id@ == v,
                Err(e) => result == Err::<Self, GatekeepError>(e),
            },
    {
        match validate_identifier("obligation_id", false, value) {
            Ok(v) => Ok(ObligationId(v)),
            Err(e) => Err(e),
        }
    }

    pub(crate) fn from_trusted(value: &str) -> (id: Self)
        ensures
            id@ == value@,
    {
        ObligationId(value.to_owned())
    }

    /// Returns the identifier as a string slice.
    pub fn as_str(&self) -> (s: &str)
        ensures
            s@ == self@,
    {
        self.0.as_str()
    }

    /// Returns an identical copy of this identifier.
    pub fn duplicate(&self) -> (id: Self)
        ensures
            id == *self,
    {
        ObligationId(self.0.clone())
    }

    /// Compares two identifiers by content.
    pub fn same(&self, other: &Self) -> (b: bool)
        ensures
            b == (self@ == other@),
    {
        self.0 == other.0
    }
}

/// Owned, validated identifier of a denial-reason parameter key.
#[derive(Clone, Debug, PartialEq, Eq, PartialOrd, Ord, Hash)]
pub struct ParamKey(String);

impl View for ParamKey {
    type V = Seq<char>;

    closed spec fn view(&self) -> Seq<char> {
        self.0@
    }
}

impl DeepView for ParamKey {
    type V = Seq<char>;

    open spec fn deep_view(&self) -> Seq<char> {
        self@
    }
}

impl ParamKey {
    /// Creates a validated identifier; whitespace-only input is rejected.
    pub fn new(value: &str) -> (result: GatekeepResult<Self>)
        ensures
            match identifier_check("param_key", false, value@) {
                Ok(v) => result matches Ok(id) && id@ == v,
                Err(e) => result == Err::<Self, GatekeepError>(e),
            },
    {
        match validate_identifier("param_key", false, value) {
            Ok(v) => Ok(ParamKey(v)),
            Err(e) => Err(e),
        }
    }

    pub(crate) fn from_trusted(value: &str) -> (id: Self)
        ensures
            id@ == value@,
    {
        ParamKey(value.to_owned())
    }

    /// Returns the identifier as a string slice.
    pub fn as_str(&self) -> (s: &str)
        ensures
            s@ == self@,
    {
        self.0.as_str()
    }

    /// Returns an identical copy of this identifier.
    pub fn duplicate(&self) -> (id: Self)
        ensures
            id == *self,
    {
        ParamKey(self.0.clone())
    }

    /// Compares two identifiers by content.
    pub fn same(&self, other: &Self) -> (b: bool)
        ensures
            b == (self@ == other@),
    {
        self.0 == other.0
    }
}

/// Owned, validated identifier of a policy content hash.
#[derive(Clone, Debug, PartialEq, Eq, PartialOrd, Ord, Hash)]
pub struct PolicyHash(String);

impl View for PolicyHash {
    type V = Seq<char>;

    closed spec fn view(&self) -> Seq<char> {
        self.0@
    }
}

impl DeepView for PolicyHash {
    type V = Seq<char>;

    open spec fn deep_view(&self) -> Seq<char> {
        self@
    }
}

impl PolicyHash {
    /// Creates a validated identifier; whitespace-only input is rejected.
    pub fn new(value: &str) -> (result: GatekeepResult<Self>)
        ensures
            match identifier_check("policy_hash", false, value@) {
                Ok(v) => result matches Ok(id) && id@ == v,
                Err(e) => result == Err::<Self, GatekeepError>(e),
            },
    {
        match validate_identifier("policy_hash", false, value) {
            Ok(v) => Ok(PolicyHash(v)),
            Err(e) => Err(e),
        }
    }

    pub(crate) fn from_trusted(value: &str) -> (id: Self)
        ensures
            id@ == value@,
    {
        PolicyHash(value.to_owned())
    }

    /// Returns the identifier as a string slice.
    pub fn as_str(&self) -> (s: &str)
        ensures
            s@ == self@,
    {
        self.0.as_str()
    }

    /// Returns an identical copy of this identifier.
    pub fn duplicate(&self) -> (id: Self)
        ensures
            id == *self,
    {
        PolicyHash(self.0.clone())
    }

    /// Compares two identifiers by content.
    pub fn same(&self, other: &Self) -> (b: bool)
        ensures
            b == (self@ == other@),
    {
        self.0 == other.0
    }
}

/// Owned, validated identifier of an author-assigned policy.
#[derive(Clone, Debug, PartialEq, Eq, PartialOrd, Ord, Hash)]
pub struct PolicyId(String);

impl View for PolicyId {
    type V = Seq<char>;

    closed spec fn view(&self) -> Seq<char> {
        self.0@
    }
}

impl DeepView for PolicyId {
    type V = Seq<char>;

    open spec fn deep_view(&self) -> Seq<char> {
        self@
    }
}

impl PolicyId {
    /// Creates a validated identifier; whitespace-only input is rejected.
    pub fn new(value: &str) -> (result: GatekeepResult<Self>)
        ensures
            match identifier_check("policy_id", false, value@) {
                Ok(v) => result matches Ok(id) && id@ == v,
                Err(e) => result == Err::<Self, GatekeepError>(e),
            },
    {
        match validate_identifier("policy_id", false, value) {
            Ok(v) => Ok(PolicyId(v)),
            Err(e) => Err(e),
        }
    }

    pub(crate) fn from_trusted(value: &str) -> (id: Self)
        ensures
            id@ == value@,
    {
        PolicyId(value.to_owned())
    }

    /// Returns the identifier as a string slice.
    pub fn as_str(&self) -> (s: &str)
        ensures
            s@ == self@,
    {
        self.0.as_str()
    }

    /// Returns an identical copy of this identifier.
    pub fn duplicate(&self) -> (id: Self)
        ensures
            id == *self,
    {
        PolicyId(self.0.clone())
    }

    /// Compares two identifiers by content.
    pub fn same(&self, other: &Self) -> (b: bool)
        ensures
            b == (self@ == other@),
    {
        self.0 == other.0
    }
}

/// Owned, validated identifier of a denial reason code.
#[derive(Clone, Debug, PartialEq, Eq, PartialOrd, Ord, Hash)]
pub struct ReasonCode(String);

impl View for ReasonCode {
    type V = Seq<char>;

    closed spec fn view(&self) -> Seq<char> {
        self.0@
    }
}

impl DeepView for ReasonCode {
    type V = Seq<char>;

    open spec fn deep_view(&self) -> Seq<char> {
        self@
    }
}

impl ReasonCode {
    /// Creates a validated identifier; whitespace-only input is rejected.
    pub fn new(value: &str) -> (result: GatekeepResult<Self>)
        ensures
            match identifier_check("reason_code", false, value@) {
                Ok(v) => result matches Ok(id) && id@ == v,
                Err(e) => result == Err::<Self, GatekeepError>(e),
            },
    {
        match validate_identifier("reason_code", false, value) {
            Ok(v) => Ok(ReasonCode(v)),
            Err(e) => Err(e),
        }
    }

    pub(crate) fn from_trusted(value: &str) -> (id: Self)
        ensures
            id@ == value@,
    {
        ReasonCode(value.to_owned())
    }

    /// Returns the identifier as a string slice.
    pub fn as_str(&self) -> (s: &str)
        ensures
            s@ == self@,
    {
        self.0.as_str()
    }

    /// Returns an identical copy of this identifier.
    pub fn duplicate(&self) -> (id: Self)
        ensures
            id == *self,
    {
        ReasonCode(self.0.clone())
    }

    /// Compares two identifiers by content.
    pub fn same(&self, other: &Self) -> (b: bool)
        ensures
            b == (self@ == other@),
    {
        self.0 == other.0
    }
}

/// Owned, validated identifier of an application request.
#[derive(Clone, Debug, PartialEq, Eq, PartialOrd, Ord, Hash)]
pub struct RequestId(String);

impl View for RequestId {
    type V = Seq<char>;

    closed spec fn view(&self) -> Seq<char> {
        self.0@
    }
}

impl DeepView for RequestId {
    type V = Seq<char>;

    open spec fn deep_view(&self) -> Seq<char> {
        self@
    }
}

impl RequestId {
    /// Creates a validated identifier; whitespace-only input is rejected.
    pub fn new(value: &str) -> (result: GatekeepResult<Self>)
        ensures
            match identifier_check("request_id", false, value@) {
                Ok(v) => result matches Ok(id) && id@ == v,
                Err(e) => result == Err::<Self, GatekeepError>(e),
            },
    {
        match validate_identifier("request_id", false, value) {
            Ok(v) => Ok(RequestId(v)),
            Err(e) => Err(e),
        }
    }

    pub(crate) fn from_trusted(value: &str) -> (id: Self)
        ensures
            id@ == value@,
    {
        RequestId(value.to_owned())
    }

    /// Returns the identifier as a string slice.
    pub fn as_str(&self) -> (s: &str)
        ensures
            s@ == self@,
    {
        self.0.as_str()
    }

    /// Returns an identical copy of this identifier.
    pub fn duplicate(&self) -> (id: Self)
        ensures
            id == *self,
    {
        RequestId(self.0.clone())
    }

    /// Compares two identifiers by content.
    pub fn same(&self, other: &Self) -> (b: bool)
        ensures
            b == (self@ == other@),
    {
        self.0 == other.0
    }
}

/// Owned, validated identifier of one decision occurrence.
#[derive(Clone, Debug, PartialEq, Eq, PartialOrd, Ord, Hash)]
pub struct DecisionAuditId(String);

impl View for DecisionAuditId {
    type V = Seq<char>;

    closed spec fn view(&self) -> Seq<char> {
        self.0@
    }
}

impl DeepView for DecisionAuditId {
    type V = Seq<char>;

    open spec fn deep_view(&self) -> Seq<char> {
        self@
    }
}

impl DecisionAuditId {
    /// Creates a validated identifier; whitespace-only input is rejected.
    pub fn new(value: &str) -> (result: GatekeepResult<Self>)
        ensures
            match identifier_check("decision_audit_id", true, value@) {
                Ok(v) => result matches Ok(id) && id@ == v,
                Err(e) => result == Err::<Self, GatekeepError>(e),
            },
    {
        match validate_identifier("decision_audit_id", true, value) {
            Ok(v) => Ok(DecisionAuditId(v)),
            Err(e) => Err(e),
        }
    }

    pub(crate) fn from_trusted(value: &str) -> (id: Self)
        ensures
            id@ == value@,
    {
        DecisionAuditId(value.to_owned())
    }

    /// Returns the identifier as a string slice.
    pub fn as_str(&self) -> (s: &str)
        ensures
            s@ == self@,
    {
        self.0.as_str()
    }

    /// Returns an identical copy of this identifier.
    pub fn duplicate(&self) -> (id: Self)
        ensures
            id == *self,
    {
        DecisionAuditId(self.0.clone())
    }

    /// Compares two identifiers by content.
    pub fn same(&self, other: &Self) -> (b: bool)
        ensures
            b == (self@ == other@),
    {
        self.0 == other.0
    }
}

/// Owned, validated identifier of a named request subject slot.
#[derive(Clone, Debug, PartialEq, Eq, PartialOrd, Ord, Hash)]
pub struct SubjectSlot(String);

impl View for SubjectSlot {
    type V = Seq<char>;

    closed spec fn view(&self) -> Seq<char> {
        self.0@
    }
}

impl DeepView for SubjectSlot {
    type V = Seq<char>;

    open spec fn deep_view(&self) -> Seq<char> {
        self@
    }
}

impl SubjectSlot {
    /// Creates a validated identifier; whitespace-only input is rejected.
    pub fn new(value: &str) -> (result: GatekeepResult<Self>)
        ensures
            match identifier_check("subject_slot", false, value@) {
                Ok(v) => result matches Ok(id) && id@ == v,
                Err(e) => result == Err::<Self, GatekeepError>(e),
            },
    {
        match validate_identifier("subject_slot", false, value) {
            Ok(v) => Ok(SubjectSlot(v)),
            Err(e) => Err(e),
        }
    }

    pub(crate) fn from_trusted(value: &str) -> (id: Self)
        ensures
            id@ == value@,
    {
        SubjectSlot(value.to_owned())
    }

    /// Returns the identifier as a string slice.
    pub fn as_str(&self) -> (s: &str)
        ensures
            s@ == self@,
    {
        self.0.as_str()
    }

    /// Returns an identical copy of this identifier.
    pub fn duplicate(&self) -> (id: Self)
        ensures
            id == *self,
    {
        SubjectSlot(self.0.clone())
    }

    /// Compares two identifiers by content.
    pub fn same(&self, other: &Self) -> (b: bool)
        ensures
            b == (self@ == other@),
    {
        self.0 == other.0
    }
}

/// Static identifier, checked when it is built.
#[derive(Clone, Copy, Debug, PartialEq, Eq, PartialOrd, Ord, Hash)]
pub struct StaticFactId(&'static str);

impl View for StaticFactId {
    type V = Seq<char>;

    closed spec fn view(&self) -> Seq<char> {
        self.0@
    }
}

impl StaticFactId {
    #[verifier::type_invariant]
    closed spec fn wf(self) -> bool {
        static_id_ok(self.0@)
    }

    /// Creates a static identifier from a string that is not empty or whitespace only.
    pub fn new(value: &'static str) -> (id: Self)
        requires
            static_id_ok(value@),
        ensures
            id@ == value@,
    {
        StaticFactId(value)
    }

    /// Creates a static identifier, reporting a string that is empty or
    /// whitespace only as the owned identifier's constructor does.
    pub fn try_new(value: &'static str) -> (r: GatekeepResult<Self>)
        ensures
            static_id_ok(value@) ==> (r matches Ok(id) && id@ == value@),
            !static_id_ok(value@) ==> r == Err::<Self, GatekeepError>(
                GatekeepError::EmptyIdentifier { field: "fact_id" },
            ),
    {
        if is_blank(value) {
            Err(GatekeepError::EmptyIdentifier { field: "fact_id" })
        } else {
            Ok(StaticFactId(value))
        }
    }

    /// Returns the identifier string.
    pub fn as_str(self) -> (s: &'static str)
        ensures
            s@ == self@,
            static_id_ok(s@),
    {
        proof {
            use_type_invariant(&self);
        }
        self.0
    }

    /// Converts this static identifier into its owned form.
    pub fn to_owned_id(self) -> (result: GatekeepResult<FactId>)
        ensures
            result matches Ok(id) && id@ == self@,
    {
        let s = self.as_str();
        proof {
            lemma_static_id_passes(s@);
        }
        FactId::new(s)
    }
}

/// Static identifier, checked when it is built.
#[derive(Clone, Copy, Debug, PartialEq, Eq, PartialOrd, Ord, Hash)]
pub struct StaticClauseLabel(&'static str);

impl View for StaticClauseLabel {
    type V = Seq<char>;

    closed spec fn view(&self) -> Seq<char> {
        self.0@
    }
}

impl StaticClauseLabel {
    #[verifier::type_invariant]
    closed spec fn wf(self) -> bool {
        static_id_ok(self.0@)
    }

    /// Creates a static identifier from a string that is not empty or whitespace only.
    pub fn new(value: &'static str) -> (id: Self)
        requires
            static_id_ok(value@),
        ensures
            id@ == value@,
    {
        StaticClauseLabel(value)
    }

    /// Creates a static identifier, reporting a string that is empty or
    /// whitespace only as the owned identifier's constructor does.
    pub fn try_new(value: &'static str) -> (r: GatekeepResult<Self>)
        ensures
            static_id_ok(value@) ==> (r matches Ok(id) && id@ == value@),
            !static_id_ok(value@) ==> r == Err::<Self, GatekeepError>(
                GatekeepError::EmptyIdentifier { field: "clause_label" },
            ),
    {
        if is_blank(value) {
            Err(GatekeepError::EmptyIdentifier { field: "clause_label" })
        } else {
            Ok(StaticClauseLabel(value))
        }
    }

    /// Returns the identifier string.
    pub fn as_str(self) -> (s: &'static str)
        ensures
            s@ == self@,
            static_id_ok(s@),
    {
        proof {
            use_type_invariant(&self);
        }
        self.0
    }

    /// Converts this static identifier into its owned form.
    pub fn to_owned_id(self) -> (result: GatekeepResult<ClauseLabel>)
        ensures
            result matches Ok(id) && id@ == self@,
    {
        let s = self.as_str();
        proof {
            lemma_static_id_passes(s@);
        }
        ClauseLabel::new(s)
    }
}

/// Static identifier, checked when it is built.
#[derive(Clone, Copy, Debug, PartialEq, Eq, PartialOrd, Ord, Hash)]
pub struct StaticObligationId(&'static str);

impl View for StaticObligationId {
    type V = Seq<char>;

    closed spec fn view(&self) -> Seq<char> {
        self.0@
    }
}

impl StaticObligationId {
    #[verifier::type_invariant]
    closed spec fn wf(self) -> bool {
        static_id_ok(self.0@)
    }

    /// Creates a static identifier from a string that is not empty or whitespace only.
    pub fn new(value: &'static str) -> (id: Self)
        requires
            static_id_ok(value@),
        ensures
            id@ == value@,
    {
        StaticObligationId(value)
    }

    /// Creates a static identifier, reporting a string that is empty or
    /// whitespace only as the owned identifier's constructor does.
    pub fn try_new(value: &'static str) -> (r: GatekeepResult<Self>)
        ensures
            static_id_ok(value@) ==> (r matches Ok(id) && id@ == value@),
            !static_id_ok(value@) ==> r == Err::<Self, GatekeepError>(
                GatekeepError::EmptyIdentifier { field: "obligation_id" },
            ),
    {
        if is_blank(value) {
            Err(GatekeepError::EmptyIdentifier { field: "obligation_id" })
        } else {
            Ok(StaticObligationId(value))
        }
    }

    /// Returns the identifier string.
    pub fn as_str(self) -> (s: &'static str)
        ensures
            s@ == self@,
            static_id_ok(s@),
    {
        proof {
            use_type_invariant(&self);
        }
        self.0
    }

    /// Converts this static identifier into its owned form.
    pub fn to_owned_id(self) -> (result: GatekeepResult<ObligationId>)
        ensures
            result matches Ok(id) && id@ == self@,
    {
        let s = self.as_str();
        proof {
            lemma_static_id_passes(s@);
        }
        ObligationId::new(s)
    }
}

/// Static identifier, checked when it is built.
#[derive(Clone, Copy, Debug, PartialEq, Eq, PartialOrd, Ord, Hash)]
pub struct StaticParamKey(&'static str);

impl View for StaticParamKey {
    type V = Seq<char>;

    closed spec fn view(&self) -> Seq<char> {
        self.0@
    }
}

impl StaticParamKey {
    #[verifier::type_invariant]
    closed spec fn wf(self) -> bool {
        static_id_ok(self.0@)
    }

    /// Creates a static identifier from a string that is not empty or whitespace only.
    pub fn new(value: &'static str) -> (id: Self)
        requires
            static_id_ok(value@),
        ensures
            id@ == value@,
    {
        StaticParamKey(value)
    }

    /// Creates a static identifier, reporting a string that is empty or
    /// whitespace only as the owned identifier's constructor does.
    pub fn try_new(value: &'static str) -> (r: GatekeepResult<Self>)
        ensures
            static_id_ok(value@) ==> (r matches Ok(id) && id@ == value@),
            !static_id_ok(value@) ==> r == Err::<Self, GatekeepError>(
                GatekeepError::EmptyIdentifier { field: "param_key" },
            ),
    {
        if is_blank(value) {
            Err(GatekeepError::EmptyIdentifier { field: "param_key" })
        } else {
            Ok(StaticParamKey(value))
        }
    }

    /// Returns the identifier string.
    pub fn as_str(self) -> (s: &'static str)
        ensures
            s@ == self@,
            static_id_ok(s@),
    {
        proof {
            use_type_invariant(&self);
        }
        self.0
    }

    /// Converts this static identifier into its owned form.
    pub fn to_owned_id(self) -> (result: GatekeepResult<ParamKey>)
        ensures
            result matches Ok(id) && id@ == self@,
    {
        let s = self.as_str();
        proof {
            lemma_static_id_passes(s@);
        }
        ParamKey::new(s)
    }
}

/// Static identifier, checked when it is built.
#[derive(Clone, Copy, Debug, PartialEq, Eq, PartialOrd, Ord, Hash)]
pub struct StaticReasonCode(&'static str);

impl View for StaticReasonCode {
    type V = Seq<char>;

    closed spec fn view(&self) -> Seq<char> {
        self.0@
    }
}

impl StaticReasonCode {
    #[verifier::type_invariant]
    closed spec fn wf(self) -> bool {
        static_id_ok(self.0@)
    }

    /// Creates a static identifier from a string that is not empty or whitespace only.
    pub fn new(value: &'static str) -> (id: Self)
        requires
            static_id_ok(value@),
        ensures
            id@ == value@,
    {
        StaticReasonCode(value)
    }

    /// Creates a static identifier, reporting a string that is empty or
    /// whitespace only as the owned identifier's constructor does.
    pub fn try_new(value: &'static str) -> (r: GatekeepResult<Self>)
        ensures
            static_id_ok(value@) ==> (r matches Ok(id) && id@ == value@),
            !static_id_ok(value@) ==> r == Err::<Self, GatekeepError>(
                GatekeepError::EmptyIdentifier { field: "reason_code" },
            ),
    {
        if is_blank(value) {
            Err(GatekeepError::EmptyIdentifier { field: "reason_code" })
        } else {
            Ok(StaticReasonCode(value))
        }
    }

    /// Returns the identifier string.
    pub fn as_str(self) -> (s: &'static str)
        ensures
            s@ == self@,
            static_id_ok(s@),
    {
        proof {
            use_type_invariant(&self);
        }
        self.0
    }

    /// Converts this static identifier into its owned form.
    pub fn to_owned_id(self) -> (result: GatekeepResult<ReasonCode>)
        ensures
            result matches Ok(id) && id@ == self@,
    {
        let s = self.as_str();
        proof {
            lemma_static_id_passes(s@);
        }
        ReasonCode::new(s)
    }
}

/// Static identifier, checked when it is built.
#[derive(Clone, Copy, Debug, PartialEq, Eq, PartialOrd, Ord, Hash)]
pub struct StaticRequestId(&'static str);

impl View for StaticRequestId {
    type V = Seq<char>;

    closed spec fn view(&self) -> Seq<char> {
        self.0@
    }
}

impl StaticRequestId {
    #[verifier::type_invariant]
    closed spec fn wf(self) -> bool {
        static_id_ok(self.0@)
    }

    /// Creates a static identifier from a string that is not empty or whitespace only.
    pub fn new(value: &'static str) -> (id: Self)
        requires
            static_id_ok(value@),
        ensures
            id@ == value@,
    {
        StaticRequestId(value)
    }

    /// Creates a static identifier, reporting a string that is empty or
    /// whitespace only as the owned identifier's constructor does.
    pub fn try_new(value: &'static str) -> (r: GatekeepResult<Self>)
        ensures
            static_id_ok(value@) ==> (r matches Ok(id) && id@ == value@),
            !static_id_ok(value@) ==> r == Err::<Self, GatekeepError>(
                GatekeepError::EmptyIdentifier { field: "request_id" },
            ),
    {
        if is_blank(value) {
            Err(GatekeepError::EmptyIdentifier { field: "request_id" })
        } else {
            Ok(StaticRequestId(value))
        }
    }

    /// Returns the identifier string.
    pub fn as_str(self) -> (s: &'static str)
        ensures
            s@ == self@,
            static_id_ok(s@),
    {
        proof {
            use_type_invariant(&self);
        }
        self.0
    }

    /// Converts this static identifier into its owned form.
    pub fn to_owned_id(self) -> (result: GatekeepResult<RequestId>)
        ensures
            result matches Ok(id) && id@ == self@,
    {
        let s = self.as_str();
        proof {
            lemma_static_id_passes(s@);
        }
        RequestId::new(s)
    }
}

/// Static identifier, checked when it is built.
#[derive(Clone, Copy, Debug, PartialEq, Eq, PartialOrd, Ord, Hash)]
pub struct StaticSubjectSlot(&'static str);

impl View for StaticSubjectSlot {
    type V = Seq<char>;

    closed spec fn view(&self) -> Seq<char> {
        self.0@
    }
}

impl StaticSubjectSlot {
    #[verifier::type_invariant]
    closed spec fn wf(self) -> bool {
        static_id_ok(self.0@)
    }

    /// Creates a static identifier from a string that is not empty or whitespace only.
    pub fn new(value: &'static str) -> (id: Self)
        requires
            static_id_ok(value@),
        ensures
            id@ == value@,
    {
        StaticSubjectSlot(value)
    }

    /// Creates a static identifier, reporting a string that is empty or
    /// whitespace only as the owned identifier's constructor does.
    pub fn try_new(value: &'static str) -> (r: GatekeepResult<Self>)
        ensures
            static_id_ok(value@) ==> (r matches Ok(id) && id@ == value@),
            !static_id_ok(value@) ==> r == Err::<Self, GatekeepError>(
                GatekeepError::EmptyIdentifier { field: "subject_slot" },
            ),
    {
        if is_blank(value) {
            Err(GatekeepError::EmptyIdentifier { field: "subject_slot" })
        } else {
            Ok(StaticSubjectSlot(value))
        }
    }

    /// Returns the identifier string.
    pub fn as_str(self) -> (s: &'static str)
        ensures
            s@ == self@,
            static_id_ok(s@),
    {
        proof {
            use_type_invariant(&self);
        }
        self.0
    }

    /// Converts this static identifier into its owned form.
    pub fn to_owned_id(self) -> (result: GatekeepResult<SubjectSlot>)
        ensures
            result matches Ok(id) && id@ == self@,
    {
        let s = self.as_str();
        proof {
            lemma_static_id_passes(s@);
        }
        SubjectSlot::new(s)
    }
}

/// Tenant routing identity bounded to 255 UTF-8 bytes.
#[derive(Clone, Debug, PartialEq, Eq, PartialOrd, Ord, Hash)]
pub struct TenantId(String);

impl View for TenantId {
    type V = Seq<char>;

    closed spec fn view(&self) -> Seq<char> {
        self.0@
    }
}

impl DeepView for TenantId {
    type V = Seq<char>;

    open spec fn deep_view(&self) -> Seq<char> {
        self@
    }
}

impl TenantId {
    /// Creates a tenant identifier; blank, overlong, control and noncharacter input is rejected.
    pub fn new(value: &str) -> (result: GatekeepResult<Self>)
        ensures
            match tenant_check(value@) {
                Ok(v) => result matches Ok(id) && id@ == v,
                Err(e) => result == Err::<Self, GatekeepError>(e),
            },
    {
        match validate_tenant_id(value) {
            Ok(v) => Ok(TenantId(v)),
            Err(e) => Err(e),
        }
    }

    pub(crate) fn from_trusted(value: &str) -> (id: Self)
        ensures
            id@ == value@,
    {
        TenantId(value.to_owned())
    }

    /// Returns the tenant identifier as a string slice.
    pub fn as_str(&self) -> (s: &str)
        ensures
            s@ == self@,
    {
        self.0.as_str()
    }

    /// Returns an identical copy of this identifier.
    pub fn duplicate(&self) -> (id: Self)
        ensures
            id == *self,
    {
        TenantId(self.0.clone())
    }

    /// Compares two tenant identifiers by content.
    pub fn same(&self, other: &Self) -> (b: bool)
        ensures
            b == (self@ == other@),
    {
        self.0 == other.0
    }
}

/// Static tenant identifier, checked against the owned tenant rules when it is built.
#[derive(Clone, Copy, Debug, PartialEq, Eq, PartialOrd, Ord, Hash)]
pub struct StaticTenantId(&'static str);

impl View for StaticTenantId {
    type V = Seq<char>;

    closed spec fn view(&self) -> Seq<char> {
        self.0@
    }
}

impl StaticTenantId {
    #[verifier::type_invariant]
    closed spec fn wf(self) -> bool {
        static_tenant_ok(self.0@)
    }

    /// Creates a static tenant identifier from a string that passes the tenant rules.
    pub fn new(value: &'static str) -> (id: Self)
        requires
            static_tenant_ok(value@),
        ensures
            id@ == value@,
    {
        StaticTenantId(value)
    }

    /// Creates a static tenant identifier, reporting a string that breaks the
    /// tenant rules with the error the owned tenant constructor gives.
    pub fn try_new(value: &'static str) -> (r: GatekeepResult<Self>)
        ensures
            match tenant_check(value@) {
                Ok(_) => r matches Ok(id) && id@ == value@,
                Err(e) => r == Err::<Self, GatekeepError>(e),
            },
    {
        match validate_tenant_id(value) {
            Err(e) => Err(e),
            Ok(_) => Ok(StaticTenantId(value)),
        }
    }

    /// Returns the identifier string.
    pub fn as_str(self) -> (s: &'static str)
        ensures
            s@ == self@,
            static_tenant_ok(s@),
    {
        proof {
            use_type_invariant(&self);
        }
        self.0
    }

    /// Converts this static identifier into its owned form.
    pub fn to_owned_id(self) -> (result: GatekeepResult<TenantId>)
        ensures
            result matches Ok(id) && id@ == self@,
    {
        let s = self.as_str();
        TenantId::new(s)
    }
}

impl DecisionAuditId {
    /// Constructs an identity while importing a legacy decision audit record.
    ///
    /// Accepts exactly the values with the case-sensitive `legacy-` prefix and a
    /// non-empty suffix.
    pub fn from_legacy_import(value: &str) -> (result: GatekeepResult<Self>)
        ensures
            has_legacy_prefix(value@) && value@.len() > 7 ==> (result matches Ok(id) && id@
                == value@),
            !(has_legacy_prefix(value@) && value@.len() > 7) ==> (result matches Err(
                GatekeepError::InvalidLegacyIdentifier { value: v },
            ) && v@ == value@),
    {
        if starts_with_legacy(value) && value.unicode_len() > 7 {
            Ok(DecisionAuditId::from_trusted(value))
        } else {
            Err(GatekeepError::InvalidLegacyIdentifier { value: value.to_owned() })
        }
    }
}

/// Language or locale tag used by human-facing reason text.
#[derive(Clone, Debug, PartialEq, Eq, PartialOrd, Ord, Hash)]
pub struct Locale(String);

impl View for Locale {
    type V = Seq<char>;

    closed spec fn view(&self) -> Seq<char> {
        self.0@
    }
}

impl DeepView for Locale {
    type V = Seq<char>;

    open spec fn deep_view(&self) -> Seq<char> {
        self@
    }
}

impl Locale {
    /// Creates a locale tag from non-blank ASCII alphanumeric and `-` input.
    pub fn new(value: &str) -> (result: GatekeepResult<Self>)
        ensures
            locale_ok(value@) ==> (result matches Ok(l) && l@ == value@),
            !locale_ok(value@) ==> (result matches Err(GatekeepError::InvalidLocale { value: v })
                && v@ == value@),
    {
        match validate_locale(value) {
            Ok(v) => Ok(Locale(v)),
            Err(e) => Err(e),
        }
    }

    /// Returns the locale tag.
    pub fn as_str(&self) -> (s: &str)
        ensures
            s@ == self@,
    {
        self.0.as_str()
    }

    /// Returns an identical copy of this locale.
    pub fn duplicate(&self) -> (l: Self)
        ensures
            l == *self,
    {
        Locale(self.0.clone())
    }
}

/// Marker trait for compile-time known facts.
///
/// `spec_id` names the identifier that `id` returns; an implementation written
/// outside verified code cannot supply it, so generic code treats it as opaque.
pub trait Fact {
    /// What `id` returns.
    closed spec fn spec_id() -> Seq<char> {
        arbitrary()
    }

    /// Stable fact identifier.
    fn id() -> (id: StaticFactId)
        ensures
            id@ == Self::spec_id(),
    ;
}

/// Marker trait for compile-time known obligations.
///
/// `spec_id` names the identifier that `id` returns; an implementation written
/// outside verified code cannot supply it, so generic code treats it as opaque.
pub trait ObligationSpec {
    /// What `id` returns.
    closed spec fn spec_id() -> Seq<char> {
        arbitrary()
    }

    /// Stable obligation identifier.
    fn id() -> (id: StaticObligationId)
        ensures
            id@ == Self::spec_id(),
    ;
}

/// Application-owned subject reference.
#[derive(Clone, Debug, PartialEq, Eq)]
pub struct SubjectRef {
    kind: String,
    id: String,
}

impl SubjectRef {
    /// Subject namespace, such as `user` or `team`.
    pub closed spec fn kind_view(&self) -> Seq<char> {
        self.kind@
    }

    /// Subject identifier inside the namespace.
    pub closed spec fn id_view(&self) -> Seq<char> {
        self.id@
    }

    /// Creates a validated subject reference; each blank part is rejected.
    pub fn new(kind: &str, id: &str) -> (result: GatekeepResult<Self>)
        ensures
            blank(kind@) ==> result == Err::<Self, GatekeepError>(
                GatekeepError::EmptyIdentifier { field: "subject_kind" },
            ),
            !blank(kind@) && blank(id@) ==> result == Err::<Self, GatekeepError>(
                GatekeepError::EmptyIdentifier { field: "subject_id" },
            ),
            !blank(kind@) && !blank(id@) ==> (result matches Ok(s) && s.kind_view() == kind@
                && s.id_view() == id@),
    {
        let kind = match validate_identifier("subject_kind", false, kind) {
            Ok(k) => k,
            Err(e) => return Err(e),
        };
        let id = match validate_identifier("subject_id", false, id) {
            Ok(i) => i,
            Err(e) => return Err(e),
        };
        Ok(SubjectRef { kind, id })
    }

    /// Returns the subject namespace.
    pub fn kind(&self) -> (s: &str)
        ensures
            s@ == self.kind_view(),
    {
        self.kind.as_str()
    }

    /// Returns the subject identifier inside its namespace.
    pub fn id(&self) -> (s: &str)
        ensures
            s@ == self.id_view(),
    {
        self.id.as_str()
    }

    /// Returns an identical copy of this reference.
    pub fn duplicate(&self) -> (s: Self)
        ensures
            s == *self,
    {
        SubjectRef { kind: self.kind.clone(), id: self.id.clone() }
    }
}

} // verus!
