//! The project file of the generated bindings.

use vstd::prelude::*;
use crate::path_ext::{base_name_from, bin_base_name, extension_of, file_name, file_name_of, file_stem_of};
use crate::platform::{rid_of, NativePlatform};
use crate::text::str_eq;

verus! {

broadcast use vstd::std_specs::vec::group_vec_axioms, vstd::seq::group_seq_axioms;

/// One build of a native binary, to be packed for its platform.
#[derive(Debug, Clone)]
pub struct NativeBinary {
    pub platform: NativePlatform,
    pub filepath: String,
}

pub open spec fn binary_xml(path: Seq<char>, name: Seq<char>, rid: Seq<char>) -> Seq<char> {
    "\n        <Content Include=\""@ + path + "\" Link=\""@ + name + "\" PackagePath=\"runtimes/"@ + rid
        + "/native/"@ + name + "\">\n            <CopyToOutputDirectory>PreserveNewest</CopyToOutputDirectory>\n        </Content>\n"@
}

/// The file name of a path, or nothing when it names no file.
pub open spec fn name_or_empty(n: Option<Seq<char>>) -> Seq<char> {
    match n {
        Some(x) => x,
        None => Seq::empty(),
    }
}

pub open spec fn base_name_spec(path: Seq<char>) -> Seq<char> {
    base_name_from(file_stem_of(path)->Some_0, extension_of(path))
}

impl NativeBinary {
    pub fn new(platform: NativePlatform, filepath: String) -> (r: NativeBinary)
        ensures
            r.platform == platform,
            r.filepath@ == filepath@,
    {
        NativeBinary { platform, filepath }
    }

    /// The file name of the binary, if its path names a file.
    pub fn filename(&self) -> (r: Option<String>)
        ensures
            match r {
                Some(n) => file_name_of(self.filepath@) == Some(n@),
                None => file_name_of(self.filepath@) is None,
            },
    {
        file_name(self.filepath.as_str())
    }

    /// The item that copies the binary into the package for its platform.
    pub fn render_proj_xml(&self) -> (r: String)
        ensures
            r@ == binary_xml(
                self.filepath@,
                name_or_empty(file_name_of(self.filepath@)),
                rid_of(self.platform),
            ),
    {
        let name = match self.filename() {
            Some(n) => n,
            None => String::new(),
        };
        let mut out = String::from_str("\n        <Content Include=\"");
        out.append(self.filepath.as_str());
        out.append("\" Link=\"");
        out.append(name.as_str());
        out.append("\" PackagePath=\"runtimes/");
        out.append(self.platform.to_dotnet_rid_string());
        out.append("/native/");
        out.append(name.as_str());
        out.append(
            "\">\n            <CopyToOutputDirectory>PreserveNewest</CopyToOutputDirectory>\n        </Content>\n",
        );
        assert(out@ =~= binary_xml(
            self.filepath@,
            name_or_empty(file_name_of(self.filepath@)),
            rid_of(self.platform),
        ));
        out
    }
}

/// Builds of one native binary for several platforms.
#[derive(Debug, Clone)]
pub struct NativeBinarySet {
    pub base_name: String,
    pub binaries: Vec<NativeBinary>,
}

pub open spec fn binaries_xml(bs: Seq<NativeBinary>) -> Seq<char>
    decreases bs.len(),
{
    if bs.len() == 0 {
        Seq::empty()
    } else {
        binaries_xml(bs.drop_last()) + binary_xml(
            bs.last().filepath@,
            name_or_empty(file_name_of(bs.last().filepath@)),
            rid_of(bs.last().platform),
        )
    }
}

pub open spec fn set_xml(base: Seq<char>, bs: Seq<NativeBinary>) -> Seq<char> {
    "    <ItemGroup Label = \""@ + base + " native libs\">"@ + binaries_xml(bs) + "    </ItemGroup>"@
}

impl NativeBinarySet {
    /// A set of builds that share one base name.
    pub fn new(binaries: Vec<NativeBinary>) -> (r: NativeBinarySet)
        requires
            binaries@.len() > 0,
            forall|i: int| 0 <= i < binaries@.len() ==> file_stem_of(#[trigger] binaries@[i].filepath@) is Some,
            forall|i: int|
                0 <= i < binaries@.len() ==> base_name_spec(#[trigger] binaries@[i].filepath@)
                    == base_name_spec(binaries@[0].filepath@),
        ensures
            r.base_name@ == base_name_spec(binaries@[0].filepath@),
            r.binaries@ == binaries@,
    {
        let base_name = match bin_base_name(binaries[0].filepath.as_str()) {
            Some(b) => b,
            None => String::new(),
        };
        NativeBinarySet { base_name, binaries }
    }

    /// A set of builds when they are at least one, each path names a file
    /// and all share one base name; else `None`.
    pub fn try_new(binaries: Vec<NativeBinary>) -> (r: Option<NativeBinarySet>)
        ensures
            match r {
                Some(set) => set.binaries@ == binaries@ && set.base_name@ == base_name_spec(
                    binaries@[0].filepath@,
                ),
                None => !(binaries@.len() > 0 && (forall|i: int|
                    0 <= i < binaries@.len() ==> file_stem_of(#[trigger] binaries@[i].filepath@) is Some)
                    && (forall|i: int|
                    0 <= i < binaries@.len() ==> base_name_spec(#[trigger] binaries@[i].filepath@)
                        == base_name_spec(binaries@[0].filepath@))),
            },
    {
        if binaries.len() == 0 {
            return None;
        }
        let first = match bin_base_name(binaries[0].filepath.as_str()) {
            Some(b) => b,
            None => return None,
        };
        let mut i: usize = 0;
        while i < binaries.len()
            invariant
                i <= binaries@.len(),
                binaries@.len() > 0,
                file_stem_of(binaries@[0].filepath@) is Some,
                first@ == base_name_spec(binaries@[0].filepath@),
                forall|k: int| 0 <= k < i ==> file_stem_of(#[trigger] binaries@[k].filepath@) is Some,
                forall|k: int|
                    0 <= k < i ==> base_name_spec(#[trigger] binaries@[k].filepath@) == base_name_spec(
                        binaries@[0].filepath@,
                    ),
            decreases binaries.len() - i,
        {
            match bin_base_name(binaries[i].filepath.as_str()) {
                Some(b) => {
                    if !str_eq(b.as_str(), first.as_str()) {
                        return None;
                    }
                },
                None => return None,
            }
            i = i + 1;
        }
        Some(NativeBinarySet::new(binaries))
    }

    pub fn render_proj_xml(&self) -> (r: String)
        ensures
            r@ == set_xml(self.base_name@, self.binaries@),
    {
        let mut out = String::from_str("    <ItemGroup Label = \"");
        out.append(self.base_name.as_str());
        out.append(" native libs\">");
        let ghost head = out@;
        let mut i: usize = 0;
        assert(self.binaries@.take(0) =~= Seq::<NativeBinary>::empty());
        while i < self.binaries.len()
            invariant
                i <= self.binaries@.len(),
                out@ == head + binaries_xml(self.binaries@.take(i as int)),
            decreases self.binaries.len() - i,
        {
            assert(self.binaries@.take(i + 1).drop_last() =~= self.binaries@.take(i as int));
            let x = self.binaries[i].render_proj_xml();
            out.append(x.as_str());
            assert(out@ =~= head + binaries_xml(self.binaries@.take(i + 1)));
            i = i + 1;
        }
        assert(self.binaries@.take(i as int) =~= self.binaries@);
        out.append("    </ItemGroup>");
        assert(out@ =~= set_xml(self.base_name@, self.binaries@));
        out
    }
}

/// The project file: its target framework, whether unsafe code is allowed,
/// and the native builds it packs.
#[derive(Debug, Clone)]
pub struct ProjFile {
    pub target_framework: String,
    pub allow_unsafe: bool,
    pub binary_set: NativeBinarySet,
}

pub open spec fn proj_xml(framework: Seq<char>, allow_unsafe: bool, set: Seq<char>) -> Seq<char> {
    "<Project Sdk=\"Microsoft.NET.Sdk\">\n    <PropertyGroup>\n        <TargetFramework>"@ + framework
        + "</TargetFramework>\n        <AllowUnsafeBlocks>"@ + (if allow_unsafe {
        "true"@
    } else {
        "false"@
    }) + "</AllowUnsafeBlocks>\n    </PropertyGroup>\n"@ + set + "\n</Project>\n"@
}

impl ProjFile {
    pub fn render_proj_xml(&self) -> (r: String)
        ensures
            r@ == proj_xml(
                self.target_framework@,
                self.allow_unsafe,
                set_xml(self.binary_set.base_name@, self.binary_set.binaries@),
            ),
    {
        let mut out = String::from_str(
            "<Project Sdk=\"Microsoft.NET.Sdk\">\n    <PropertyGroup>\n        <TargetFramework>",
        );
        out.append(self.target_framework.as_str());
        out.append("</TargetFramework>\n        <AllowUnsafeBlocks>");
        if self.allow_unsafe {
            out.append("true");
        } else {
            out.append("false");
        }
        out.append("</AllowUnsafeBlocks>\n    </PropertyGroup>\n");
        let set = self.binary_set.render_proj_xml();
        out.append(set.as_str());
        out.append("\n</Project>\n");
        assert(out@ =~= proj_xml(
            self.target_framework@,
            self.allow_unsafe,
            set_xml(self.binary_set.base_name@, self.binary_set.binaries@),
        ));
        out
    }
}

} // verus!
