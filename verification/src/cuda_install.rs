//! Where a CUDA installation is.

use crate::paths::{end_of_prefix, names_of_verbatim, starts_verbatim, starts_with_drive};
use crate::text::same_text;
use vstd::prelude::*;
use vstd::string::StringExecFns;

verus! {

use crate::paths::{has_drive, is_verbatim, prefix_end, verbatim_names};
use crate::text::texts;

/// The operating systems on which a CUDA installation has a known place.
#[derive(Clone, Copy, Debug, PartialEq, Eq, Structural)]
pub enum Platform {
    /// Linux.
    Linux,
    /// Windows.
    Windows,
    /// Any other.
    Other,
}

/// Which of the places for a CUDA installation exist.
#[derive(Clone, Copy, Debug, PartialEq, Eq, Structural)]
pub struct CudaPlaces {
    /// `/usr/local/cuda` exists.
    pub usr_local_cuda: bool,
    /// `/opt/cuda` exists.
    pub opt_cuda: bool,
    /// `/usr/bin/nvcc` exists.
    pub usr_bin_nvcc: bool,
}

/// Where CUDA is installed: where the environment says, else in the first known place that exists.
pub open spec fn cuda_path_spec(
    cuda_path: Option<Seq<char>>,
    platform: Platform,
    places: CudaPlaces,
) -> Option<Seq<char>> {
    match cuda_path {
        Some(path) => Some(path),
        None => match platform {
            Platform::Linux => if places.usr_local_cuda {
                Some("/usr/local/cuda"@)
            } else if places.opt_cuda {
                Some("/opt/cuda"@)
            } else if places.usr_bin_nvcc {
                Some("/usr"@)
            } else {
                None
            },
            Platform::Windows => Some("C:/Program Files/NVIDIA GPU Computing Toolkit/CUDA/"@),
            Platform::Other => None,
        },
    }
}

/// What an optional string holds.
pub open spec fn optional_text(text: Option<String>) -> Option<Seq<char>> {
    match text {
        Some(text) => Some(text@),
        None => None,
    }
}

/// Finds the CUDA installation; `variable` is what `CUDA_PATH` holds.
pub fn cuda_path(variable: Option<String>, platform: Platform, places: CudaPlaces) -> (path: Option<
    String,
>)
    ensures
        optional_text(path) == cuda_path_spec(optional_text(variable), platform, places),
        variable matches Some(given) ==> path == Some(given),
        variable is None ==> (path is None <==> platform == Platform::Other || platform
            == Platform::Linux && !places.usr_local_cuda && !places.opt_cuda
            && !places.usr_bin_nvcc),
{
    match variable {
        Some(path) => Some(path),
        None => match platform {
            Platform::Linux => {
                if places.usr_local_cuda {
                    Some(String::from_str("/usr/local/cuda"))
                } else if places.opt_cuda {
                    Some(String::from_str("/opt/cuda"))
                } else if places.usr_bin_nvcc {
                    // The compiler may be installed within the user path.
                    Some(String::from_str("/usr"))
                } else {
                    None
                }
            },
            Platform::Windows => Some(
                String::from_str("C:/Program Files/NVIDIA GPU Computing Toolkit/CUDA/"),
            ),
            Platform::Other => None,
        },
    }
}

/// A path is the letter of a drive alone.
pub open spec fn is_drive(path: Seq<char>) -> bool {
    path.len() == 2 && has_drive(path)
}

/// Names of directories, one below the other, once a lone dot is left out and two dots have taken
/// away the name before them.
pub open spec fn resolved(names: Seq<Seq<char>>) -> Seq<Seq<char>>
    decreases names.len(),
{
    if names.len() == 0 {
        Seq::empty()
    } else {
        let rest = resolved(names.drop_last());
        if names.last() == "."@ {
            rest
        } else if names.last() != ".."@ {
            rest.push(names.last())
        } else if rest.len() > 0 {
            rest.drop_last()
        } else {
            rest
        }
    }
}

/// Names, each after a backslash.
pub open spec fn backslashed(names: Seq<Seq<char>>) -> Seq<char>
    decreases names.len(),
{
    if names.len() == 0 {
        Seq::empty()
    } else {
        backslashed(names.drop_last()) + "\\"@ + names.last()
    }
}

/// A path with one more component: the separator of the platform is put between, unless there is
/// one, or the path is empty or a drive alone. On Windows a slash is a separator too, and a path
/// that is verbatim is normalized: one backslash comes before each name, and no reference to a
/// directory by dots is left.
pub open spec fn joined(path: Seq<char>, component: Seq<char>, platform: Platform) -> Seq<char> {
    if platform == Platform::Windows && is_verbatim(path) {
        path.take(prefix_end(path)) + backslashed(resolved(verbatim_names(path))) + "\\"@
            + component
    } else if path.len() == 0 || path.last() == '/' {
        path + component
    } else if platform != Platform::Windows {
        path + "/"@ + component
    } else if path.last() == '\\' || is_drive(path) {
        path + component
    } else {
        path + "\\"@ + component
    }
}

fn resolve(names: &Vec<String>) -> (result: Vec<String>)
    ensures
        texts(result@) == resolved(texts(names@)),
{
    let mut result: Vec<String> = Vec::new();
    let mut index: usize = 0;
    let ghost all = texts(names@);
    proof {
        assert(all.take(0) =~= Seq::<Seq<char>>::empty());
        assert(texts(result@) =~= resolved(all.take(0)));
    }
    while index < names.len()
        invariant
            index <= names.len(),
            all == texts(names@),
            texts(result@) == resolved(all.take(index as int)),
        decreases names.len() - index,
    {
        let ghost former = result@;
        proof {
            let next = all.take(index + 1);
            assert(next.drop_last() =~= all.take(index as int));
            assert(next.last() == names@[index as int]@);
        }
        if same_text(names[index].as_str(), ".") {
        } else if same_text(names[index].as_str(), "..") {
            if result.len() > 0 {
                result.pop();
                assert(texts(result@) =~= texts(former).drop_last());
            }
        } else {
            let name = names[index].clone();
            result.push(name);
            assert(texts(result@) =~= texts(former).push(name@));
        }
        index = index + 1;
    }
    assert(all.take(index as int) =~= all);
    result
}

fn join_verbatim(path: &str, component: &str) -> (result: String)
    requires
        is_verbatim(path@),
    ensures
        result@ == joined(path@, component@, Platform::Windows),
{
    let names = resolve(&names_of_verbatim(path));
    let end: usize = end_of_prefix(path);
    let prefix = path.substring_char(0, end);
    assert(prefix@ =~= path@.take(end as int));
    let mut result = String::from_str(prefix);
    let mut index: usize = 0;
    let ghost all = texts(names@);
    proof {
        assert(all.take(0) =~= Seq::<Seq<char>>::empty());
        assert(result@ =~= prefix@ + backslashed(all.take(0)));
    }
    while index < names.len()
        invariant
            index <= names.len(),
            all == texts(names@),
            result@ == prefix@ + backslashed(all.take(index as int)),
        decreases names.len() - index,
    {
        proof {
            let next = all.take(index + 1);
            assert(next.drop_last() =~= all.take(index as int));
            assert(next.last() == names@[index as int]@);
        }
        result.append("\\");
        result.append(names[index].as_str());
        assert(result@ =~= prefix@ + backslashed(all.take(index + 1)));
        index = index + 1;
    }
    assert(all.take(index as int) =~= all);
    result.append("\\");
    result.append(component);
    result
}

fn join(path: &str, component: &str, platform: Platform) -> (result: String)
    ensures
        result@ == joined(path@, component@, platform),
{
    if platform == Platform::Windows && starts_verbatim(path) {
        return join_verbatim(path, component);
    }
    let len: usize = path.unicode_len();
    let mut result = String::from_str(path);
    if len > 0 && path.get_char(len - 1) != '/' {
        if platform != Platform::Windows {
            result.append("/");
        } else if path.get_char(len - 1) != '\\' && !(len == 2 && starts_with_drive(path)) {
            result.append("\\");
        }
    }
    result.append(component);
    result
}

/// The directory of the CUDA headers of an installation.
pub open spec fn headers(installation: Seq<char>, platform: Platform) -> Seq<char> {
    joined(installation, "include"@, platform)
}

/// Returns the directory of the CUDA headers of an installation.
pub fn include_path(installation: &str, platform: Platform) -> (path: String)
    ensures
        path@ == headers(installation@, platform),
{
    join(installation, "include", platform)
}

/// Returns the directory of the CCCL headers of an installation.
pub fn cccl_include_path(installation: &str, platform: Platform) -> (path: String)
    ensures
        path@ == joined(headers(installation@, platform), "cccl"@, platform),
{
    let headers = include_path(installation, platform);
    join(headers.as_str(), "cccl", platform)
}

/// The environment decides where CUDA is, wherever it says so.
pub proof fn law_environment_decides(
    path: Seq<char>,
    platform: Platform,
    places: CudaPlaces,
    others: CudaPlaces,
)
    ensures
        cuda_path_spec(Some(path), platform, places) == Some(path),
        cuda_path_spec(Some(path), platform, places) == cuda_path_spec(
            Some(path),
            platform,
            others,
        ),
{
}

/// On Linux, where the environment says nothing, an installation below `/usr/local` goes before one
/// below `/opt`, and that before a compiler in `/usr/bin`; where none of them is there, neither is
/// CUDA.
pub proof fn law_known_places_on_linux(places: CudaPlaces)
    ensures
        ({
            let found = cuda_path_spec(None, Platform::Linux, places);
            &&& found == Some("/usr/local/cuda"@) <==> places.usr_local_cuda
            &&& found == Some("/opt/cuda"@) <==> places.opt_cuda && !places.usr_local_cuda
            &&& found == Some("/usr"@) <==> places.usr_bin_nvcc && !places.opt_cuda
                && !places.usr_local_cuda
            &&& found is None <==> !places.usr_bin_nvcc && !places.opt_cuda
                && !places.usr_local_cuda
        }),
{
    reveal_strlit("/usr/local/cuda");
    reveal_strlit("/opt/cuda");
    reveal_strlit("/usr");
    assert("/usr/local/cuda"@.len() == 15 && "/opt/cuda"@.len() == 9 && "/usr"@.len() == 4);
}

/// Only on Linux does it matter which places exist.
pub proof fn law_places_matter_on_linux_only(
    platform: Platform,
    places: CudaPlaces,
    others: CudaPlaces,
)
    requires
        platform != Platform::Linux,
    ensures
        cuda_path_spec(None, platform, places) == cuda_path_spec(None, platform, others),
        cuda_path_spec(None, platform, places) is Some <==> platform == Platform::Windows,
        platform == Platform::Windows ==> cuda_path_spec(None, platform, places) == Some(
            "C:/Program Files/NVIDIA GPU Computing Toolkit/CUDA/"@,
        ),
{
}

} // verus!
