//! Numbers and instants.
//!
//! A coordinate or a distance is a finite double, an expiry an instant with
//! millisecond resolution. Both are kept in the form in which the store
//! receives them, so that no value is rounded on its way.

use crate::store_values::{
    bson_model, chrono_represents, datetime_value, double_bits, BsonModel,
    FIRST_COMMON_MILLIS, LAST_COMMON_MILLIS,
};
use bson::Bson;
use vstd::prelude::*;

verus! {

/// Whether the double with bit pattern `bits` is a number: neither an
/// infinity nor a NaN, whose exponent field is all ones.
pub open spec fn is_finite_bits(bits: u64) -> bool {
    (bits >> 52) & 0x7ff != 0x7ff
}

/// Whether `value` is a double that is a number.
pub open spec fn is_finite_double(value: BsonModel) -> bool {
    value matches BsonModel::Double(bits) && is_finite_bits(bits)
}

/// A finite double: a latitude or longitude in decimal degrees, or a distance
/// in metres.
#[derive(Debug)]
pub struct Scalar {
    value: Bson,
}

impl View for Scalar {
    type V = u64;

    /// The bit pattern of the number.
    closed spec fn view(&self) -> u64 {
        bson_model(self.value)->Double_0
    }
}

impl Clone for Scalar {
    fn clone(&self) -> (copy: Self)
        ensures
            copy@ == self@,
    {
        proof {
            use_type_invariant(self);
        }
        Scalar { value: self.value.clone() }
    }
}

impl Scalar {
    #[verifier::type_invariant]
    spec fn holds_finite_double(self) -> bool {
        is_finite_double(bson_model(self.value))
    }

    /// Takes a BSON value that is a finite double, and no other.
    pub fn new(value: Bson) -> (made: Option<Scalar>)
        ensures
            made is Some <==> is_finite_double(bson_model(value)),
            made matches Some(scalar) ==> bson_model(value) == BsonModel::Double(scalar@),
    {
        match double_bits(&value) {
            Some(bits) => {
                if (bits >> 52) & 0x7ff != 0x7ff {
                    Some(Scalar { value })
                } else {
                    None
                }
            },
            None => None,
        }
    }

    /// The bit pattern of the number.
    pub fn to_bits(&self) -> (bits: u64)
        ensures
            bits == self@,
            is_finite_bits(bits),
    {
        proof {
            use_type_invariant(self);
        }
        double_bits(&self.value).unwrap()
    }

    /// The number as a BSON double.
    pub fn to_bson(&self) -> (value: Bson)
        ensures
            bson_model(value) == BsonModel::Double(self@),
            is_finite_bits(self@),
    {
        proof {
            use_type_invariant(self);
        }
        self.value.clone()
    }
}

/// An instant in UTC, in milliseconds since the Unix epoch, within the range
/// of instants that chrono represents.
#[derive(Clone, Copy, Debug)]
pub struct Timestamp {
    millis: i64,
}

impl View for Timestamp {
    type V = i64;

    /// Milliseconds since the Unix epoch.
    closed spec fn view(&self) -> i64 {
        self.millis
    }
}

impl Timestamp {
    #[verifier::type_invariant]
    spec fn representable(self) -> bool {
        chrono_represents(self.millis)
    }

    /// The instant `millis` milliseconds after the Unix epoch, where chrono
    /// has one; it has one for every instant of the years 0000 to 9999.
    pub fn from_millis(millis: i64) -> (made: Option<Timestamp>)
        ensures
            made is Some <==> chrono_represents(millis),
            made matches Some(instant) ==> instant@ == millis,
            FIRST_COMMON_MILLIS <= millis <= LAST_COMMON_MILLIS ==> made is Some,
    {
        match datetime_value(millis) {
            Some(_) => Some(Timestamp { millis }),
            None => None,
        }
    }

    /// Milliseconds since the Unix epoch.
    pub fn millis(&self) -> (millis: i64)
        ensures
            millis == self@,
            chrono_represents(millis),
    {
        proof {
            use_type_invariant(self);
        }
        self.millis
    }

    /// The instant as a BSON datetime.
    pub fn to_bson(&self) -> (value: Bson)
        ensures
            bson_model(value) == BsonModel::DateTime(self@),
    {
        proof {
            use_type_invariant(self);
        }
        let made = datetime_value(self.millis);
        made.unwrap()
    }
}

} // verus!
