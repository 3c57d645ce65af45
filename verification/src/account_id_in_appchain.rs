//! The account id of a validator in the appchain, formatted as a lower case
//! hex string that starts with `0x`.
use crate::errors::AnchorError;
use crate::types::AppchainTemplateType;
use vstd::prelude::*;
use vstd::string::StrSliceExecFns;
use vstd::string::StringExecFns;

verus! {

/// The lower case equivalent of `s`, as Rust's `str::to_lowercase` gives it.
pub uninterp spec fn lowercase(s: Seq<char>) -> Seq<char>;

/// Calls `str::to_lowercase`, which returns the lowercase equivalent of a
/// string slice as a new `String`. The contract names the result `lowercase`
/// of the argument and says nothing more of it: the Unicode case mapping is
/// not stated here.
#[verifier::external_body]
fn to_lowercase(s: &str) -> (res: String)
    ensures
        res@ == lowercase(s@),
{
    s.to_lowercase()
}

/// The value of the hex digit `b`, upper or lower case.
pub open spec fn hex_digit_value(b: u8) -> int {
    if 48 <= b <= 57 {
        b - 48
    } else if 65 <= b <= 70 {
        b - 55
    } else {
        b - 87
    }
}

/// Whether `b` is a hex digit, upper or lower case.
pub open spec fn is_hex_digit(b: u8) -> bool {
    (48 <= b <= 57) || (65 <= b <= 70) || (97 <= b <= 102)
}

/// Whether `data` is a sequence of hex digits of even length.
pub open spec fn is_hex(data: Seq<u8>) -> bool {
    data.len() % 2 == 0 && forall|i: int| 0 <= i < data.len() ==> #[trigger] is_hex_digit(data[i])
}

/// Calls `hex::decode`, which decodes pairs of hex digits (either case) into
/// bytes, and fails on an odd length or on a byte that is no hex digit.
#[verifier::external_body]
fn hex_decode(data: &[u8]) -> (res: Result<Vec<u8>, ()>)
    ensures
        res is Ok <==> is_hex(data@),
        res matches Ok(bytes) ==> {
            &&& bytes@.len() * 2 == data@.len()
            &&& forall|i: int|
                0 <= i < bytes@.len() ==> #[trigger] bytes@[i] == hex_digit_value(data@[2 * i]) * 16
                    + hex_digit_value(data@[2 * i + 1])
        },
{
    match hex::decode(data) {
        Ok(bytes) => Ok(bytes),
        Err(_) => Err(()),
    }
}

/// The id in the appchain that a submitted id stands for: the id with `0x`
/// put before it where its lower case equivalent does not start with `0x`.
pub open spec fn prefixed_id(id: Seq<char>) -> Seq<char> {
    let l = lowercase(id);
    if l.len() >= 2 && l[0] == '0' && l[1] == 'x' {
        id
    } else {
        seq!['0', 'x'] + id
    }
}

/// The number of bytes that a valid id of an appchain of `template` holds.
pub open spec fn id_length(template: AppchainTemplateType) -> int {
    match template {
        AppchainTemplateType::Barnacle => 32,
        AppchainTemplateType::BarnacleEvm => 20,
    }
}

/// Whether `raw` is `0x` followed by the hex digits of an id of the length
/// that `template` asks for, counted in the UTF-8 bytes of `raw`.
pub open spec fn is_valid_raw_id(template: AppchainTemplateType, raw: Seq<char>) -> bool {
    let b = vstd::utf8::encode_utf8(raw);
    &&& b.len() > 2
    &&& is_hex(b.subrange(2, b.len() as int))
    &&& (b.len() - 2) / 2 == id_length(template)
}

/// An id in the appchain as submitted and as formatted.
pub struct AccountIdInAppchain {
    appchain_template_type: AppchainTemplateType,
    origin: Option<String>,
    raw_string: String,
}

impl AccountIdInAppchain {
    /// The template of the appchain.
    pub closed spec fn template(&self) -> AppchainTemplateType {
        self.appchain_template_type
    }

    /// The id as submitted.
    pub closed spec fn origin(&self) -> Option<String> {
        self.origin
    }

    /// The formatted id.
    pub closed spec fn raw(&self) -> Seq<char> {
        self.raw_string@
    }

    /// The id `id_in_appchain` of an appchain of `appchain_template_type`:
    /// the id with `0x` put before it where needed, in lower case.
    pub fn new(id_in_appchain: Option<String>, appchain_template_type: &AppchainTemplateType) -> (res: Self)
        ensures
            res.template() == *appchain_template_type,
            res.origin() == id_in_appchain,
            res.raw() == lowercase(
                match id_in_appchain {
                    Some(id) => prefixed_id(id@),
                    None => Seq::<char>::empty(),
                },
            ),
    {
        let mut value = String::new();
        match &id_in_appchain {
            Some(id) => {
                let l = to_lowercase(id.as_str());
                let ls = l.as_str();
                let starts = ls.unicode_len() >= 2 && ls.get_char(0) == '0' && ls.get_char(1) == 'x';
                if !starts {
                    let prefix = "0x";
                    proof {
                        reveal_strlit("0x");
                    }
                    value.append(prefix);
                }
                value.append(id.as_str());
                assert(value@ =~= prefixed_id(id@));
            },
            None => {},
        }
        let raw_string = to_lowercase(value.as_str());
        AccountIdInAppchain {
            appchain_template_type: *appchain_template_type,
            origin: id_in_appchain,
            raw_string,
        }
    }

    /// Whether the formatted id is `0x` followed by the hex digits of an id of
    /// the length that the template of the appchain asks for.
    pub fn is_valid(&self) -> (res: bool)
        ensures
            res == is_valid_raw_id(self.template(), self.raw()),
    {
        let bytes = self.raw_string.as_str().as_bytes();
        proof {
            assert(bytes@ == vstd::utf8::encode_utf8(self.raw_string@));
        }
        if bytes.len() > 2 {
            let digits = vstd::slice::slice_subrange(bytes, 2, bytes.len());
            match hex_decode(digits) {
                Ok(decoded) => match self.appchain_template_type {
                    AppchainTemplateType::Barnacle => decoded.len() == 32,
                    AppchainTemplateType::BarnacleEvm => decoded.len() == 20,
                },
                Err(_) => false,
            }
        } else {
            false
        }
    }

    /// Refuses an id that is not valid, naming the id as submitted.
    pub fn assert_valid(&self) -> (res: Result<(), AnchorError>)
        ensures
            is_valid_raw_id(self.template(), self.raw()) ==> res is Ok,
            !is_valid_raw_id(self.template(), self.raw()) ==> (res matches Err(
                AnchorError::InvalidValidatorIdInAppchain(s),
            ) && s@ == match self.origin() {
                Some(id) => id@,
                None => Seq::<char>::empty(),
            }),
    {
        if self.is_valid() {
            Ok(())
        } else {
            Err(AnchorError::InvalidValidatorIdInAppchain(self.origin_to_string()))
        }
    }

    /// The id as submitted; empty where none was.
    pub fn origin_to_string(&self) -> (res: String)
        ensures
            res@ == match self.origin() {
                Some(id) => id@,
                None => Seq::<char>::empty(),
            },
    {
        match &self.origin {
            Some(id) => id.clone(),
            None => String::new(),
        }
    }

    /// The formatted id.
    pub fn to_string(&self) -> (res: String)
        ensures
            res@ == self.raw(),
    {
        self.raw_string.clone()
    }
}

} // verus!
