//! The compile-test harness model: recorded test cases, the generated
//! project description, and the pass/fail decisions. Everything here is a
//! pure function of plain values; invoking cargo, touching the file system
//! and printing live with the caller, which feeds the outcomes back in.

use vstd::prelude::*;

verus! {

use vstd::string::StringExecFns;
use vstd::string::StrSliceExecFns;
use crate::manifest::{Bin, Build, Config, Dependency, Edition, Manifest, Package};
use crate::normalize::{replace_crlf, spec_replace_crlf};

/// The generated test project: where it lives, where it builds, and the
/// package name it was given.
#[derive(Debug)]
pub struct Project {
    pub dir: String,
    pub target_dir: String,
    pub name: String,
}

/// What a recorded test case expects of its compilation.
#[derive(Debug, Clone, Copy, PartialEq, Eq, Structural)]
pub enum Expected {
    Pass,
    CompileFail,
}

/// One recorded test case: a source path and its expectation.
#[derive(Debug)]
pub struct Test {
    pub path: String,
    pub expected: Expected,
}

/// Why a test run failed.
#[derive(Debug, PartialEq, Eq)]
pub enum Error {
    /// Cargo could not be executed at all.
    Cargo,
    /// Cargo ran and reported an error.
    CargoFail,
    /// A file system operation failed.
    Io,
    /// The compiler error did not match the expected error.
    Mismatch,
    /// A test source file could not be opened; carries its path.
    Open(String),
    /// The package name could not be detected.
    PkgName,
    /// The name of the project directory could not be determined.
    ProjectDir,
    /// The expected-stderr file could not be read.
    ReadStderr,
    /// The test case built but its execution failed.
    RunFailed,
    /// A compile-fail test case compiled.
    ShouldNotHaveCompiled,
    /// The generated manifest could not be serialized.
    Toml,
    /// The captured stderr could not be written out.
    WriteStderr,
}

impl Error {
    /// Whether a message for this failure has already been shown while it
    /// happened, so reporting it again would repeat it.
    pub fn already_printed(&self) -> (r: bool)
        ensures
            r == (self is CargoFail || self is Mismatch || self is ShouldNotHaveCompiled),
    {
        match self {
            Error::CargoFail | Error::Mismatch | Error::ShouldNotHaveCompiled => true,
            _ => false,
        }
    }
}

/// The decision applied to the exit status of the dependency build:
/// success passes through, anything else is a cargo failure. Running the
/// build itself lives with the caller.
pub fn build_dependencies(status_success: bool) -> (r: Result<(), Error>)
    ensures
        r == if status_success {
            Ok::<(), Error>(())
        } else {
            Err::<(), Error>(Error::CargoFail)
        },
{
    if status_success {
        Ok(())
    } else {
        Err(Error::CargoFail)
    }
}

/// The recorded test cases of one harness run.
#[derive(Debug)]
pub struct TestCases {
    runner: Runner,
}

/// The runner state: the tests recorded so far, in order.
#[derive(Debug)]
pub struct Runner {
    pub tests: Vec<Test>,
}

impl TestCases {
    /// The recorded tests, in the order they were added.
    pub closed spec fn spec_tests(&self) -> Seq<Test> {
        self.runner.tests@
    }

    /// Starts with no test cases recorded.
    pub fn new() -> (r: TestCases)
        ensures
            r.spec_tests().len() == 0,
    {
        TestCases { runner: Runner { tests: Vec::new() } }
    }

    /// Records a test case that must compile and run successfully.
    pub fn pass(&mut self, path: &str)
        ensures
            final(self).spec_tests().len() == old(self).spec_tests().len() + 1,
            forall|i: int|
                0 <= i < old(self).spec_tests().len() ==> #[trigger] final(self).spec_tests()[i]
                    == old(self).spec_tests()[i],
            final(self).spec_tests().last().path@ == path@,
            final(self).spec_tests().last().expected == Expected::Pass,
    {
        self.runner.tests.push(Test { path: path.to_owned(), expected: Expected::Pass });
    }

    /// Records a test case that must fail to compile.
    pub fn compile_fail(&mut self, path: &str)
        ensures
            final(self).spec_tests().len() == old(self).spec_tests().len() + 1,
            forall|i: int|
                0 <= i < old(self).spec_tests().len() ==> #[trigger] final(self).spec_tests()[i]
                    == old(self).spec_tests()[i],
            final(self).spec_tests().last().path@ == path@,
            final(self).spec_tests().last().expected == Expected::CompileFail,
    {
        self.runner.tests.push(Test { path: path.to_owned(), expected: Expected::CompileFail });
    }

    /// The recorded runner state.
    pub fn runner(&self) -> (r: &Runner)
        ensures
            r.tests@ == self.spec_tests(),
    {
        &self.runner
    }
}

/// The index where the file name of `p` begins: just after the last `/`.
pub open spec fn file_name_start(p: Seq<char>) -> int
    decreases p.len(),
{
    if p.len() == 0 {
        0
    } else if p[p.len() - 1] == '/' {
        p.len() as int
    } else {
        file_name_start(p.drop_last())
    }
}

/// The index of the last `.` of `f`, or -1 when none occurs.
pub open spec fn last_dot(f: Seq<char>) -> int
    decreases f.len(),
{
    if f.len() == 0 {
        -1
    } else if f[f.len() - 1] == '.' {
        f.len() - 1
    } else {
        last_dot(f.drop_last())
    }
}

/// The stem of a file name: everything before its last `.`, unless that
/// dot leads the name or none occurs.
pub open spec fn spec_stem(f: Seq<char>) -> Seq<char> {
    let d = last_dot(f);
    if d <= 0 {
        f
    } else {
        f.take(d)
    }
}

/// A path's characters with every `-` replaced by `_`.
pub open spec fn dashes_to_underscores(s: Seq<char>) -> Seq<char> {
    s.map_values(
        |c: char|
            if c == '-' {
                '_'
            } else {
                c
            },
    )
}

/// The binary name of a test case at path `p`: the file stem, with dashes
/// turned into underscores; a path without a file name is used whole.
pub open spec fn spec_test_name(p: Seq<char>) -> Seq<char> {
    let f = p.skip(file_name_start(p));
    if f.len() == 0 {
        dashes_to_underscores(p)
    } else {
        dashes_to_underscores(spec_stem(f))
    }
}

impl Test {
    /// The name of the binary this test case compiles to.
    pub fn name(&self) -> (r: String)
        ensures
            r@ == spec_test_name(self.path@),
    {
        let p = self.path.as_str();
        let len = p.unicode_len();
        // Find where the file name begins.
        let mut start = len;
        proof {
            assert(p@.take(len as int) =~= p@);
        }
        while start > 0 && p.get_char(start - 1) != '/'
            invariant
                start <= len,
                len == p@.len(),
                file_name_start(p@) == file_name_start(p@.take(start as int)),
                forall|t: int| start <= t < len ==> p@[t] != '/',
            decreases start,
        {
            proof {
                assert(p@.take(start as int).drop_last() =~= p@.take(start - 1));
            }
            start = start - 1;
        }
        proof {
            assert(file_name_start(p@.take(start as int)) == start as int);
        }
        // Find the last dot of the file name.
        let mut dot = len;
        let ghost f = p@.skip(start as int);
        proof {
            assert(f.take((len - start) as int) =~= f);
        }
        while dot > start && p.get_char(dot - 1) != '.'
            invariant
                start <= dot <= len,
                len == p@.len(),
                f == p@.skip(start as int),
                last_dot(f) == last_dot(f.take((dot - start) as int)),
            decreases dot,
        {
            proof {
                assert(f.take((dot - start) as int).drop_last() =~= f.take(
                    (dot - 1 - start) as int,
                ));
                assert(f.take((dot - start) as int).len() > 0);
                assert(f.take((dot - start) as int).last() == p@[dot - 1]);
            }
            dot = dot - 1;
        }
        proof {
            if dot == start {
                assert(f.take(0) =~= Seq::<char>::empty());
                assert(last_dot(f) == -1);
            } else {
                assert(f.take((dot - start) as int).last() == p@[dot - 1]);
                assert(last_dot(f) == dot - 1 - start);
            }
        }
        // The range of characters the name is built from.
        let (from, to): (usize, usize) = if start == len {
            (0, len)
        } else if dot > start + 1 {
            (start, dot - 1)
        } else {
            (start, len)
        };
        proof {
            if start == len {
                assert(f.len() == 0);
                assert(p@.subrange(0, len as int) =~= p@);
            } else if dot > start + 1 {
                assert(spec_stem(f) =~= p@.subrange(start as int, dot - 1));
            } else {
                assert(spec_stem(f) =~= p@.subrange(start as int, len as int));
            }
        }
        let ghost source = p@.subrange(from as int, to as int);
        // Build the name, turning dashes into underscores.
        let mut r = String::new();
        let mut i = from;
        proof {
            assert(r@ =~= dashes_to_underscores(source.take(0)));
        }
        while i < to
            invariant
                from <= i <= to <= len,
                len == p@.len(),
                source == p@.subrange(from as int, to as int),
                r@ == dashes_to_underscores(source.take((i - from) as int)),
            decreases to - i,
        {
            let c = p.get_char(i);
            if c == '-' {
                r.append("_");
                proof {
                    reveal_strlit("_");
                }
            } else {
                let piece = p.substring_char(i, i + 1);
                r.append(piece);
            }
            proof {
                assert(r@ =~= dashes_to_underscores(source.take((i + 1 - from) as int)));
            }
            i = i + 1;
        }
        proof {
            assert(source.take((to - from) as int) =~= source);
        }
        r
    }

    /// The decision for a test expected to pass, given whether it built and
    /// whether it then ran successfully: a build failure is a cargo
    /// failure, a run failure is reported as such, and otherwise the test
    /// passes.
    pub fn check_pass(&self, build_success: bool, run_success: bool) -> (r: Result<(), Error>)
        ensures
            !build_success ==> r == Err::<(), Error>(Error::CargoFail),
            build_success && run_success ==> r == Ok::<(), Error>(()),
            build_success && !run_success ==> r == Err::<(), Error>(Error::RunFailed),
    {
        if !build_success {
            Err(Error::CargoFail)
        } else if run_success {
            Ok(())
        } else {
            Err(Error::RunFailed)
        }
    }

    /// The decision for a test expected to fail compilation. A successful
    /// build is itself the failure. Without a recorded expectation the
    /// observed stderr is accepted, for the caller to save. Otherwise the
    /// expectation, its line endings unified, must equal the observed
    /// stderr exactly.
    pub fn check_compile_fail(
        &self,
        build_success: bool,
        stderr: &String,
        expected: Option<&String>,
    ) -> (r: Result<(), Error>)
        ensures
            build_success ==> r == Err::<(), Error>(Error::ShouldNotHaveCompiled),
            !build_success && expected is None ==> r == Ok::<(), Error>(()),
            !build_success ==> (expected matches Some(e) ==> r == if spec_replace_crlf(e@)
                == stderr@ {
                Ok::<(), Error>(())
            } else {
                Err::<(), Error>(Error::Mismatch)
            }),
    {
        if build_success {
            return Err(Error::ShouldNotHaveCompiled);
        }
        match expected {
            None => Ok(()),
            Some(e) => {
                let unified = replace_crlf(e.as_str());
                if unified == *stderr {
                    Ok(())
                } else {
                    Err(Error::Mismatch)
                }
            },
        }
    }
}

impl Runner {
    /// The manifest of the generated test project: the project package,
    /// one path dependency on the crate under test, a placeholder main
    /// binary, and one binary per recorded test case at its path under the
    /// project directory.
    pub fn make_manifest(&self, crate_name: String, project: &Project, project_dir: &str) -> (m:
        Manifest)
        ensures
            m.package.name@ == project.name@,
            m.package.version@ == "0.0.0"@,
            m.package.edition == Edition::E2018,
            m.package.publish == false,
            m.dependencies@.len() == 1,
            m.dependencies@[0].0@ == crate_name@,
            m.dependencies@[0].1.version is None,
            m.dependencies@[0].1.path matches Some(p) && p@ == project_dir@,
            m.dependencies@[0].1.features@.len() == 0,
            m.bins@.len() == 1 + self.tests@.len(),
            m.bins@[0].name@ == project.name@,
            m.bins@[0].path@ == "main.rs"@,
            forall|t: int|
                0 <= t < self.tests@.len() ==> {
                    &&& (#[trigger] m.bins@[t + 1]).name@ == spec_test_name(self.tests@[t].path@)
                    &&& m.bins@[t + 1].path@ == project_dir@ + "/"@ + self.tests@[t].path@
                },
    {
        let package = Package {
            name: project.name.clone(),
            version: "0.0.0".to_owned(),
            edition: Edition::E2018,
            publish: false,
        };
        let mut dependencies: Vec<(String, Dependency)> = Vec::new();
        dependencies.push(
            (
                crate_name,
                Dependency { version: None, path: Some(project_dir.to_owned()), features: Vec::new() },
            ),
        );
        let mut bins: Vec<Bin> = Vec::new();
        bins.push(Bin { name: project.name.clone(), path: "main.rs".to_owned() });
        let mut t: usize = 0;
        while t < self.tests.len()
            invariant
                t <= self.tests@.len(),
                bins@.len() == 1 + t,
                bins@[0].name@ == project.name@,
                bins@[0].path@ == "main.rs"@,
                forall|u: int|
                    0 <= u < t ==> {
                        &&& (#[trigger] bins@[u + 1]).name@ == spec_test_name(
                            self.tests@[u].path@,
                        )
                        &&& bins@[u + 1].path@ == project_dir@ + "/"@ + self.tests@[u].path@
                    },
            decreases self.tests@.len() - t,
        {
            let name = self.tests[t].name();
            let mut joined = project_dir.to_owned();
            joined.append("/");
            joined.append(self.tests[t].path.as_str());
            proof {
                reveal_strlit("/");
            }
            bins.push(Bin { name, path: joined });
            t = t + 1;
        }
        Manifest { package, dependencies, bins }
    }

    /// The generated cargo configuration: the lints the test projects
    /// silence.
    pub fn make_config(&self) -> (c: Config)
        ensures
            c.build.rustflags@.len() == 2,
            c.build.rustflags@[0]@ == "-A"@,
            c.build.rustflags@[1]@ == "dead_code"@,
    {
        let mut rustflags: Vec<String> = Vec::new();
        rustflags.push("-A".to_owned());
        rustflags.push("dead_code".to_owned());
        Config { build: Build { rustflags } }
    }
}

} // verus!
