//! The protocol versions that the library knows, and the dictionary text
//! bundled for each.

use crate::quickfix::{
    QUICKFIX_FIX40, QUICKFIX_FIX41, QUICKFIX_FIX42, QUICKFIX_FIX43, QUICKFIX_FIX44, QUICKFIX_FIX50,
    QUICKFIX_FIX50SP1, QUICKFIX_FIX50SP2, QUICKFIX_FIXT11,
};
use crate::text::str_eq;
use vstd::prelude::*;
use vstd::string::StringExecFns;

verus! {

/// Which [`Dictionary`](crate::dictionary::Dictionary) version to use.
#[derive(Copy, Debug, Clone, PartialEq, Eq, Structural)]
#[non_exhaustive]
pub enum Version {
    Fix40,
    Fix41,
    Fix42,
    Fix43,
    Fix44,
    Fix50,
    Fix50SP1,
    Fix50SP2,
    Fixt11,
}

impl Version {
    /// The first line of the QuickFIX definition file bundled for `self`:
    /// the opening of its root element, which names the version.
    pub open spec fn opening_text(self) -> Seq<char> {
        match self {
            Version::Fix40 => "<fix type='FIX' major='4' minor='0' servicepack='0'>\n"@,
            Version::Fix41 => "<fix type='FIX' major='4' minor='1' servicepack='0'>\n"@,
            Version::Fix42 => "<fix type='FIX' major='4' minor='2' servicepack='0'>\n"@,
            Version::Fix43 => "<fix type='FIX' major='4' minor='3' servicepack='0'>\n"@,
            Version::Fix44 => "<fix type='FIX' major='4' minor='4' servicepack='0'>\n"@,
            Version::Fix50 => "<fix type='FIX' major='5' minor='0' servicepack='0'>\n"@,
            Version::Fix50SP1 => "<fix type='FIX' major='5' minor='0' servicepack='1'>\n"@,
            Version::Fix50SP2 => "<fix type='FIX' major='5' minor='0' servicepack='2'>\n"@,
            Version::Fixt11 => "<fix type='FIXT' major='1' minor='1' servicepack='0'>\n"@,
        }
    }

    /// What follows the first line in the QuickFIX definition file bundled
    /// for `self`.
    pub open spec fn definitions_text(self) -> Seq<char> {
        match self {
            Version::Fix40 => QUICKFIX_FIX40@,
            Version::Fix41 => QUICKFIX_FIX41@,
            Version::Fix42 => QUICKFIX_FIX42@,
            Version::Fix43 => QUICKFIX_FIX43@,
            Version::Fix44 => QUICKFIX_FIX44@,
            Version::Fix50 => QUICKFIX_FIX50@,
            Version::Fix50SP1 => QUICKFIX_FIX50SP1@,
            Version::Fix50SP2 => QUICKFIX_FIX50SP2@,
            Version::Fixt11 => QUICKFIX_FIXT11@,
        }
    }

    /// The text of the QuickFIX definition file bundled for `self`.
    pub open spec fn quickfix_text(self) -> Seq<char> {
        self.opening_text() + self.definitions_text()
    }

    /// The human-readable name of `self`, such as `FIX-5.0-SP1`.
    pub open spec fn name_text(self) -> Seq<char> {
        match self {
            Version::Fix40 => "FIX-4.0"@,
            Version::Fix41 => "FIX-4.1"@,
            Version::Fix42 => "FIX-4.2"@,
            Version::Fix43 => "FIX-4.3"@,
            Version::Fix44 => "FIX-4.4"@,
            Version::Fix50 => "FIX-5.0"@,
            Version::Fix50SP1 => "FIX-5.0-SP1"@,
            Version::Fix50SP2 => "FIX-5.0-SP2"@,
            Version::Fixt11 => "FIXT-1.1"@,
        }
    }

    /// The value of the `BeginString` field (tag 8) by which a message names
    /// `self`.
    pub open spec fn begin_string_text(self) -> Seq<char> {
        match self {
            Version::Fix40 => "FIX.4.0"@,
            Version::Fix41 => "FIX.4.1"@,
            Version::Fix42 => "FIX.4.2"@,
            Version::Fix43 => "FIX.4.3"@,
            Version::Fix44 => "FIX.4.4"@,
            Version::Fix50 => "FIX.5.0"@,
            Version::Fix50SP1 => "FIX.5.0SP1"@,
            Version::Fix50SP2 => "FIX.5.0SP2"@,
            Version::Fixt11 => "FIXT.1.1"@,
        }
    }

    /// The versions in ascending order.
    pub open spec fn all_versions() -> Seq<Version> {
        seq![
            Version::Fix40,
            Version::Fix41,
            Version::Fix42,
            Version::Fix43,
            Version::Fix44,
            Version::Fix50,
            Version::Fix50SP1,
            Version::Fix50SP2,
            Version::Fixt11,
        ]
    }

    /// The first line of the QuickFIX definition file bundled for `self`.
    pub fn opening(&self) -> (r: &'static str)
        ensures
            r@ == self.opening_text(),
    {
        match self {
            Version::Fix40 => "<fix type='FIX' major='4' minor='0' servicepack='0'>\n",
            Version::Fix41 => "<fix type='FIX' major='4' minor='1' servicepack='0'>\n",
            Version::Fix42 => "<fix type='FIX' major='4' minor='2' servicepack='0'>\n",
            Version::Fix43 => "<fix type='FIX' major='4' minor='3' servicepack='0'>\n",
            Version::Fix44 => "<fix type='FIX' major='4' minor='4' servicepack='0'>\n",
            Version::Fix50 => "<fix type='FIX' major='5' minor='0' servicepack='0'>\n",
            Version::Fix50SP1 => "<fix type='FIX' major='5' minor='0' servicepack='1'>\n",
            Version::Fix50SP2 => "<fix type='FIX' major='5' minor='0' servicepack='2'>\n",
            Version::Fixt11 => "<fix type='FIXT' major='1' minor='1' servicepack='0'>\n",
        }
    }

    /// Returns a [`String`](String) with the QuickFIX definition file for
    /// `self` as its content. The definition files are part of the binary and
    /// are read without filesystem access. The text is never empty, and no
    /// two versions share one.
    pub fn get_quickfix_spec(&self) -> (r: String)
        ensures
            r@ == self.quickfix_text(),
            r@.len() > 0,
            forall|other: Version| other != *self ==> r@ != other.quickfix_text(),
    {
        let definitions: &'static str = match self {
            Version::Fix40 => QUICKFIX_FIX40,
            Version::Fix41 => QUICKFIX_FIX41,
            Version::Fix42 => QUICKFIX_FIX42,
            Version::Fix43 => QUICKFIX_FIX43,
            Version::Fix44 => QUICKFIX_FIX44,
            Version::Fix50 => QUICKFIX_FIX50,
            Version::Fix50SP1 => QUICKFIX_FIX50SP1,
            Version::Fix50SP2 => QUICKFIX_FIX50SP2,
            Version::Fixt11 => QUICKFIX_FIXT11,
        };
        let mut text = self.opening().to_owned();
        text.append(definitions);
        proof {
            assert forall|other: Version| other != *self implies text@ != other.quickfix_text() by {
                law_bundled_texts_differ(*self, other);
            }
            law_bundled_texts_differ(*self, *self);
        }
        text
    }

    /// Every version, in ascending order.
    pub fn all() -> (r: Vec<Version>)
        ensures
            r@ == Version::all_versions(),
            forall|v: Version| r@.contains(v),
    {
        let mut out: Vec<Version> = Vec::new();
        out.push(Version::Fix40);
        out.push(Version::Fix41);
        out.push(Version::Fix42);
        out.push(Version::Fix43);
        out.push(Version::Fix44);
        out.push(Version::Fix50);
        out.push(Version::Fix50SP1);
        out.push(Version::Fix50SP2);
        out.push(Version::Fixt11);
        proof {
            assert(out@ =~= Version::all_versions());
            assert forall|v: Version| out@.contains(v) by {
                match v {
                    Version::Fix40 => assert(out@[0] == v),
                    Version::Fix41 => assert(out@[1] == v),
                    Version::Fix42 => assert(out@[2] == v),
                    Version::Fix43 => assert(out@[3] == v),
                    Version::Fix44 => assert(out@[4] == v),
                    Version::Fix50 => assert(out@[5] == v),
                    Version::Fix50SP1 => assert(out@[6] == v),
                    Version::Fix50SP2 => assert(out@[7] == v),
                    Version::Fixt11 => assert(out@[8] == v),
                }
            }
        }
        out
    }

    /// The human-readable name of `self`, such as `FIX-4.4`.
    pub fn as_str(&self) -> (r: &'static str)
        ensures
            r@ == self.name_text(),
    {
        match self {
            Version::Fix40 => "FIX-4.0",
            Version::Fix41 => "FIX-4.1",
            Version::Fix42 => "FIX-4.2",
            Version::Fix43 => "FIX-4.3",
            Version::Fix44 => "FIX-4.4",
            Version::Fix50 => "FIX-5.0",
            Version::Fix50SP1 => "FIX-5.0-SP1",
            Version::Fix50SP2 => "FIX-5.0-SP2",
            Version::Fixt11 => "FIXT-1.1",
        }
    }

    /// The human-readable name of `self` as an owned string.
    pub fn to_string(&self) -> (r: String)
        ensures
            r@ == self.name_text(),
    {
        self.as_str().to_owned()
    }

    /// The `BeginString` value that stands for `self` on the wire.
    pub fn begin_string(&self) -> (r: &'static str)
        ensures
            r@ == self.begin_string_text(),
    {
        match self {
            Version::Fix40 => "FIX.4.0",
            Version::Fix41 => "FIX.4.1",
            Version::Fix42 => "FIX.4.2",
            Version::Fix43 => "FIX.4.3",
            Version::Fix44 => "FIX.4.4",
            Version::Fix50 => "FIX.5.0",
            Version::Fix50SP1 => "FIX.5.0SP1",
            Version::Fix50SP2 => "FIX.5.0SP2",
            Version::Fixt11 => "FIXT.1.1",
        }
    }

    /// Whether `text` is the `BeginString` value of `self`.
    pub fn has_begin_string(&self, text: &str) -> (r: bool)
        ensures
            r == (text@ == self.begin_string_text()),
    {
        str_eq(self.begin_string(), text)
    }
}

/// Different versions have different names and different `BeginString`
/// values.
pub proof fn law_version_names_distinct(a: Version, b: Version)
    requires
        a != b,
    ensures
        a.name_text() != b.name_text(),
        a.begin_string_text() != b.begin_string_text(),
{
    reveal_strlit("FIX-4.0");
    reveal_strlit("FIX-4.1");
    reveal_strlit("FIX-4.2");
    reveal_strlit("FIX-4.3");
    reveal_strlit("FIX-4.4");
    reveal_strlit("FIX-5.0");
    reveal_strlit("FIX-5.0-SP1");
    reveal_strlit("FIX-5.0-SP2");
    reveal_strlit("FIXT-1.1");
    reveal_strlit("FIX.4.0");
    reveal_strlit("FIX.4.1");
    reveal_strlit("FIX.4.2");
    reveal_strlit("FIX.4.3");
    reveal_strlit("FIX.4.4");
    reveal_strlit("FIX.5.0");
    reveal_strlit("FIX.5.0SP1");
    reveal_strlit("FIX.5.0SP2");
    reveal_strlit("FIXT.1.1");
    let x = a.name_text();
    let y = b.name_text();
    let p = a.begin_string_text();
    let q = b.begin_string_text();
    if x == y {
        assert(x.len() == y.len());
        assert(x[3] == y[3]);
        assert(x[4] == y[4]);
        assert(x[6] == y[6]);
        if x.len() > 7 {
            assert(x[10] == y[10]);
        }
    }
    if p == q {
        assert(p.len() == q.len());
        assert(p[3] == q[3]);
        assert(p[4] == q[4]);
        assert(p[6] == q[6]);
        if p.len() > 7 {
            assert(p[9] == q[9]);
        }
    }
}

/// The bundled definition files are not empty, and different versions have
/// different files: their first lines already differ.
pub proof fn law_bundled_texts_differ(a: Version, b: Version)
    ensures
        a.quickfix_text().len() > 0,
        a != b ==> a.quickfix_text() != b.quickfix_text(),
{
    reveal_strlit("<fix type='FIX' major='4' minor='0' servicepack='0'>\n");
    reveal_strlit("<fix type='FIX' major='4' minor='1' servicepack='0'>\n");
    reveal_strlit("<fix type='FIX' major='4' minor='2' servicepack='0'>\n");
    reveal_strlit("<fix type='FIX' major='4' minor='3' servicepack='0'>\n");
    reveal_strlit("<fix type='FIX' major='4' minor='4' servicepack='0'>\n");
    reveal_strlit("<fix type='FIX' major='5' minor='0' servicepack='0'>\n");
    reveal_strlit("<fix type='FIX' major='5' minor='0' servicepack='1'>\n");
    reveal_strlit("<fix type='FIX' major='5' minor='0' servicepack='2'>\n");
    reveal_strlit("<fix type='FIXT' major='1' minor='1' servicepack='0'>\n");
    let x = a.quickfix_text();
    let y = b.quickfix_text();
    assert(a.opening_text().len() >= 53);
    assert(b.opening_text().len() >= 53);
    assert(x.len() >= 53);
    if a != b && x == y {
        assert(x[14] == a.opening_text()[14]);
        assert(y[14] == b.opening_text()[14]);
        assert(x[23] == a.opening_text()[23]);
        assert(y[23] == b.opening_text()[23]);
        assert(x[33] == a.opening_text()[33]);
        assert(y[33] == b.opening_text()[33]);
        assert(x[49] == a.opening_text()[49]);
        assert(y[49] == b.opening_text()[49]);
        assert(false);
    }
}

} // verus!
