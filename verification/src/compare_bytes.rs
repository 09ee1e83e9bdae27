//! Comparison of growable buffers of bytes, byte by byte.

use crate::buffer::Slice;
use crate::bytes_mut::BytesMut;
use crate::compare::{items_eq, items_eq_spec, items_order, items_partial_cmp};
use crate::layout::VecLayout;
use crate::slice::ArcSlice;
use core::cmp::Ordering;
use vstd::prelude::*;
use vstd::std_specs::cmp::{PartialEqSpec, PartialEqSpecImpl, PartialOrdSpecImpl};

verus! {

impl PartialEq<BytesMut> for BytesMut {
    fn eq(&self, other: &BytesMut) -> (r: bool) {
        items_eq(self.as_slice(), other.as_slice())
    }
}

impl PartialEqSpecImpl<BytesMut> for BytesMut {
    open spec fn obeys_eq_spec() -> bool {
        <u8 as PartialEqSpec>::obeys_eq_spec()
    }

    open spec fn eq_spec(&self, other: &BytesMut) -> bool {
        items_eq_spec(self@, other@)
    }
}

impl PartialOrd for BytesMut {
    fn partial_cmp(&self, other: &BytesMut) -> (r: Option<Ordering>) {
        items_partial_cmp(self.as_slice(), other.as_slice())
    }
}

impl PartialOrdSpecImpl for BytesMut {
    open spec fn obeys_partial_cmp_spec() -> bool {
        true
    }

    open spec fn partial_cmp_spec(&self, other: &BytesMut) -> Option<Ordering> {
        items_order(self@, other@)
    }
}

impl PartialEq<[u8]> for BytesMut {
    fn eq(&self, other: &[u8]) -> (r: bool) {
        items_eq(self.as_slice(), other)
    }
}

impl PartialEqSpecImpl<[u8]> for BytesMut {
    open spec fn obeys_eq_spec() -> bool {
        <u8 as PartialEqSpec>::obeys_eq_spec()
    }

    open spec fn eq_spec(&self, other: &[u8]) -> bool {
        items_eq_spec(self@, other@)
    }
}

impl PartialOrd<[u8]> for BytesMut {
    fn partial_cmp(&self, other: &[u8]) -> (r: Option<Ordering>) {
        items_partial_cmp(self.as_slice(), other)
    }
}

impl PartialOrdSpecImpl<[u8]> for BytesMut {
    open spec fn obeys_partial_cmp_spec() -> bool {
        true
    }

    open spec fn partial_cmp_spec(&self, other: &[u8]) -> Option<Ordering> {
        items_order(self@, other@)
    }
}

impl PartialEq<str> for BytesMut {
    fn eq(&self, other: &str) -> (r: bool) {
        items_eq(self.as_slice(), other.to_slice())
    }
}

impl PartialEqSpecImpl<str> for BytesMut {
    open spec fn obeys_eq_spec() -> bool {
        <u8 as PartialEqSpec>::obeys_eq_spec()
    }

    open spec fn eq_spec(&self, other: &str) -> bool {
        items_eq_spec(self@, other.items())
    }
}

impl PartialOrd<str> for BytesMut {
    fn partial_cmp(&self, other: &str) -> (r: Option<Ordering>) {
        items_partial_cmp(self.as_slice(), other.to_slice())
    }
}

impl PartialOrdSpecImpl<str> for BytesMut {
    open spec fn obeys_partial_cmp_spec() -> bool {
        true
    }

    open spec fn partial_cmp_spec(&self, other: &str) -> Option<Ordering> {
        items_order(self@, other.items())
    }
}

impl PartialEq<Vec<u8>> for BytesMut {
    fn eq(&self, other: &Vec<u8>) -> (r: bool) {
        items_eq(self.as_slice(), other.as_slice())
    }
}

impl PartialEqSpecImpl<Vec<u8>> for BytesMut {
    open spec fn obeys_eq_spec() -> bool {
        <u8 as PartialEqSpec>::obeys_eq_spec()
    }

    open spec fn eq_spec(&self, other: &Vec<u8>) -> bool {
        items_eq_spec(self@, other@)
    }
}

impl PartialOrd<Vec<u8>> for BytesMut {
    fn partial_cmp(&self, other: &Vec<u8>) -> (r: Option<Ordering>) {
        items_partial_cmp(self.as_slice(), other.as_slice())
    }
}

impl PartialOrdSpecImpl<Vec<u8>> for BytesMut {
    open spec fn obeys_partial_cmp_spec() -> bool {
        true
    }

    open spec fn partial_cmp_spec(&self, other: &Vec<u8>) -> Option<Ordering> {
        items_order(self@, other@)
    }
}

impl PartialEq<String> for BytesMut {
    fn eq(&self, other: &String) -> (r: bool) {
        items_eq(self.as_slice(), other.as_str().to_slice())
    }
}

impl PartialEqSpecImpl<String> for BytesMut {
    open spec fn obeys_eq_spec() -> bool {
        <u8 as PartialEqSpec>::obeys_eq_spec()
    }

    open spec fn eq_spec(&self, other: &String) -> bool {
        items_eq_spec(self@, vstd::utf8::encode_utf8(other@))
    }
}

impl PartialOrd<String> for BytesMut {
    fn partial_cmp(&self, other: &String) -> (r: Option<Ordering>) {
        items_partial_cmp(self.as_slice(), other.as_str().to_slice())
    }
}

impl PartialOrdSpecImpl<String> for BytesMut {
    open spec fn obeys_partial_cmp_spec() -> bool {
        true
    }

    open spec fn partial_cmp_spec(&self, other: &String) -> Option<Ordering> {
        items_order(self@, vstd::utf8::encode_utf8(other@))
    }
}

impl PartialEq<ArcSlice<[u8], VecLayout>> for BytesMut {
    fn eq(&self, other: &ArcSlice<[u8], VecLayout>) -> (r: bool) {
        items_eq(self.as_slice(), other.as_slice())
    }
}

impl PartialEqSpecImpl<ArcSlice<[u8], VecLayout>> for BytesMut {
    open spec fn obeys_eq_spec() -> bool {
        <u8 as PartialEqSpec>::obeys_eq_spec()
    }

    open spec fn eq_spec(&self, other: &ArcSlice<[u8], VecLayout>) -> bool {
        items_eq_spec(self@, other@)
    }
}

impl PartialEq<BytesMut> for ArcSlice<[u8], VecLayout> {
    fn eq(&self, other: &BytesMut) -> (r: bool) {
        items_eq(self.as_slice(), other.as_slice())
    }
}

impl PartialEqSpecImpl<BytesMut> for ArcSlice<[u8], VecLayout> {
    open spec fn obeys_eq_spec() -> bool {
        <u8 as PartialEqSpec>::obeys_eq_spec()
    }

    open spec fn eq_spec(&self, other: &BytesMut) -> bool {
        items_eq_spec(self@, other@)
    }
}

impl PartialEq<BytesMut> for [u8] {
    fn eq(&self, other: &BytesMut) -> (r: bool) {
        items_eq(self, other.as_slice())
    }
}

impl PartialEqSpecImpl<BytesMut> for [u8] {
    open spec fn obeys_eq_spec() -> bool {
        <u8 as PartialEqSpec>::obeys_eq_spec()
    }

    open spec fn eq_spec(&self, other: &BytesMut) -> bool {
        items_eq_spec(self@, other@)
    }
}

impl PartialEq<BytesMut> for str {
    fn eq(&self, other: &BytesMut) -> (r: bool) {
        items_eq(self.to_slice(), other.as_slice())
    }
}

impl PartialEqSpecImpl<BytesMut> for str {
    open spec fn obeys_eq_spec() -> bool {
        <u8 as PartialEqSpec>::obeys_eq_spec()
    }

    open spec fn eq_spec(&self, other: &BytesMut) -> bool {
        items_eq_spec(self.items(), other@)
    }
}

impl PartialEq<BytesMut> for Vec<u8> {
    fn eq(&self, other: &BytesMut) -> (r: bool) {
        items_eq(self.as_slice(), other.as_slice())
    }
}

impl PartialEqSpecImpl<BytesMut> for Vec<u8> {
    open spec fn obeys_eq_spec() -> bool {
        <u8 as PartialEqSpec>::obeys_eq_spec()
    }

    open spec fn eq_spec(&self, other: &BytesMut) -> bool {
        items_eq_spec(self@, other@)
    }
}

impl PartialEq<BytesMut> for String {
    fn eq(&self, other: &BytesMut) -> (r: bool) {
        items_eq(self.as_str().to_slice(), other.as_slice())
    }
}

impl PartialEqSpecImpl<BytesMut> for String {
    open spec fn obeys_eq_spec() -> bool {
        <u8 as PartialEqSpec>::obeys_eq_spec()
    }

    open spec fn eq_spec(&self, other: &BytesMut) -> bool {
        items_eq_spec(vstd::utf8::encode_utf8(self@), other@)
    }
}

impl Eq for BytesMut {

}

} // verus!
