//! One type for every built-in mask, for choosing the mask at run time.

use vstd::prelude::*;
use crate::Mask;
use crate::masks::{Blind, Echo, Standard};
use crate::reverse::{MimiReverse, OneReverse};

verus! {

/// Any of the built-in masks.
pub enum MaskPolicy {
    Standard(Standard),
    Echo(Echo),
    Blind(Blind),
    OneReverse(OneReverse),
    MimiReverse(MimiReverse),
}

impl Mask for MaskPolicy {
    open spec fn feed_output(&self, password: Seq<char>, ch: char) -> Seq<u8> {
        match self {
            MaskPolicy::Standard(m) => m.feed_output(password, ch),
            MaskPolicy::Echo(m) => m.feed_output(password, ch),
            MaskPolicy::Blind(m) => m.feed_output(password, ch),
            MaskPolicy::OneReverse(m) => m.feed_output(password, ch),
            MaskPolicy::MimiReverse(m) => m.feed_output(password, ch),
        }
    }

    open spec fn pop_output(&self, password: Seq<char>) -> Seq<u8> {
        match self {
            MaskPolicy::Standard(m) => m.pop_output(password),
            MaskPolicy::Echo(m) => m.pop_output(password),
            MaskPolicy::Blind(m) => m.pop_output(password),
            MaskPolicy::OneReverse(m) => m.pop_output(password),
            MaskPolicy::MimiReverse(m) => m.pop_output(password),
        }
    }

    open spec fn end_output(&self) -> Seq<u8> {
        match self {
            MaskPolicy::Standard(m) => m.end_output(),
            MaskPolicy::Echo(m) => m.end_output(),
            MaskPolicy::Blind(m) => m.end_output(),
            MaskPolicy::OneReverse(m) => m.end_output(),
            MaskPolicy::MimiReverse(m) => m.end_output(),
        }
    }

    open spec fn color(&self) -> Option<Seq<char>> {
        match self {
            MaskPolicy::Standard(m) => m.color(),
            MaskPolicy::Echo(m) => m.color(),
            MaskPolicy::Blind(m) => m.color(),
            MaskPolicy::OneReverse(m) => m.color(),
            MaskPolicy::MimiReverse(m) => m.color(),
        }
    }

    open spec fn is_default_mask(&self) -> bool {
        match self {
            MaskPolicy::Standard(m) => m.is_default_mask(),
            _ => false,
        }
    }

    fn default() -> (r: Self) {
        MaskPolicy::Standard(Standard::default())
    }

    fn feed_password(&self, password: &mut Vec<char>, ch: char, o: &mut Vec<u8>) {
        match self {
            MaskPolicy::Standard(m) => m.feed_password(password, ch, o),
            MaskPolicy::Echo(m) => m.feed_password(password, ch, o),
            MaskPolicy::Blind(m) => m.feed_password(password, ch, o),
            MaskPolicy::OneReverse(m) => m.feed_password(password, ch, o),
            MaskPolicy::MimiReverse(m) => m.feed_password(password, ch, o),
        }
    }

    fn pop_password(&self, password: &mut Vec<char>, o: &mut Vec<u8>) {
        match self {
            MaskPolicy::Standard(m) => m.pop_password(password, o),
            MaskPolicy::Echo(m) => m.pop_password(password, o),
            MaskPolicy::Blind(m) => m.pop_password(password, o),
            MaskPolicy::OneReverse(m) => m.pop_password(password, o),
            MaskPolicy::MimiReverse(m) => m.pop_password(password, o),
        }
    }

    fn end_password(&self, o: &mut Vec<u8>) {
        match self {
            MaskPolicy::Standard(m) => m.end_password(o),
            MaskPolicy::Echo(m) => m.end_password(o),
            MaskPolicy::Blind(m) => m.end_password(o),
            MaskPolicy::OneReverse(m) => m.end_password(o),
            MaskPolicy::MimiReverse(m) => m.end_password(o),
        }
    }

    fn set_color(&mut self, c: &str) {
        match self {
            MaskPolicy::Standard(m) => m.set_color(c),
            MaskPolicy::Echo(m) => m.set_color(c),
            MaskPolicy::Blind(m) => m.set_color(c),
            MaskPolicy::OneReverse(m) => m.set_color(c),
            MaskPolicy::MimiReverse(m) => m.set_color(c),
        }
    }
}

} // verus!
