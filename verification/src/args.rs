//! Runtime options, held as plain values.
//!
//! Parsing the command line belongs to the embedding program; the library
//! keeps the parsed options and answers what the engine's caller asks: the
//! debug switch and the target directory.

use vstd::prelude::*;

verus! {

/// The supported switches.
pub struct PLSOptions {
    pub debug: bool,
    pub colorcode: bool,
}

impl PLSOptions {
    /// Packs the parsed switches.
    pub fn init(debug: bool, colorcode: bool) -> (options: Self)
        ensures
            options.debug == debug,
            options.colorcode == colorcode,
    {
        PLSOptions { debug, colorcode }
    }
}

/// The supported arguments: an optional target directory and the switches.
pub struct PLSArguments {
    pub dir: Option<String>,
    pub debug: bool,
    pub colorcode: bool,
}

impl PLSArguments {
    /// Packs the parsed arguments.
    pub fn init(dir: Option<String>, debug: bool, colorcode: bool) -> (args: Self)
        ensures
            args.dir == dir,
            args.debug == debug,
            args.colorcode == colorcode,
    {
        PLSArguments { dir, debug, colorcode }
    }
}

/// Switch-only runtime options.
pub struct RuntimeOptions {
    options: PLSOptions,
}

impl View for RuntimeOptions {
    type V = PLSOptions;

    closed spec fn view(&self) -> PLSOptions {
        self.options
    }
}

impl RuntimeOptions {
    /// Derives the runtime options from the parsed switches.
    pub fn gather(options: PLSOptions) -> (r: Self)
        ensures
            r@ == options,
    {
        RuntimeOptions { options }
    }

    /// User specified debug mode.
    pub fn is_debug(&self) -> (debug: bool)
        ensures
            debug == self@.debug,
    {
        self.options.debug
    }
}

/// Full runtime arguments, directory included.
pub struct RuntimeArguments {
    options: PLSArguments,
}

impl View for RuntimeArguments {
    type V = PLSArguments;

    closed spec fn view(&self) -> PLSArguments {
        self.options
    }
}

impl RuntimeArguments {
    /// Derives the runtime arguments from the parsed arguments.
    pub fn gather(options: PLSArguments) -> (r: Self)
        ensures
            r@ == options,
    {
        RuntimeArguments { options }
    }

    /// User specified debug mode.
    pub fn is_debug(&self) -> (debug: bool)
        ensures
            debug == self@.debug,
    {
        self.options.debug
    }

    /// Directory to work on.
    pub fn directory(&self) -> (dir: Option<&String>)
        ensures
            dir is Some <==> self@.dir is Some,
            dir matches Option::Some(d) ==> self@.dir matches Option::Some(s) && d == s,
    {
        self.options.dir.as_ref()
    }
}

} // verus!
