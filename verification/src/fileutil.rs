use vstd::prelude::*;
use vstd::string::StringExecFns;
use crate::text::{numeral, u64_to_radix};

verus! {

/// Whether listing a directory showed it empty: the listing worked and found no
/// names.
pub fn dir_empty(listing: &Result<Vec<String>, std::io::Error>) -> (r: bool)
    ensures
        r == (listing matches Ok(names) && names@.len() == 0),
{
    match listing {
        Ok(names) => names.len() == 0,
        Err(_) => false,
    }
}

/// What making the directory `dir` comes to: the text of the error, or nothing when the
/// directory was made and is empty.
pub open spec fn create_dir_outcome(
    dir: Seq<char>,
    created: Result<(), Seq<char>>,
    listing: Option<Result<Seq<Seq<char>>, Seq<char>>>,
) -> Result<(), Seq<char>> {
    match created {
        Err(e) => Err("create error "@ + dir + " , reason =>"@ + e),
        Ok(_) => match listing {
            Some(Err(e)) => Err("err =>"@ + e),
            Some(Ok(names)) => if names.len() > 0 {
                Err("directory "@ + dir + " not empty"@)
            } else {
                Ok(())
            },
            None => Ok(()),
        },
    }
}

/// The names of a listing as texts.
pub open spec fn listing_texts(listing: Option<Result<Vec<String>, String>>) -> Option<
    Result<Seq<Seq<char>>, Seq<char>>,
> {
    match listing {
        Some(Ok(names)) => Some(Ok(names@.map_values(|s: String| s@))),
        Some(Err(e)) => Some(Err(e@)),
        None => None,
    }
}

/// Decides how making the directory `dir` went: `created` is what creating it (and
/// checking that it is writable) gave, with the error's text on failure, and `listing`
/// what listing it afterwards gave. A directory that is made must also be empty.
pub fn create_dir_all(
    dir: &str,
    created: Result<(), String>,
    listing: Option<Result<Vec<String>, String>>,
) -> (r: Result<(), String>)
    requires
        created is Ok ==> listing is Some,
    ensures
        match (r, create_dir_outcome(
            dir@,
            match created {
                Ok(_) => Ok(()),
                Err(e) => Err(e@),
            },
            listing_texts(listing),
        )) {
            (Ok(_), Ok(_)) => true,
            (Err(a), Err(b)) => a@ == b,
            _ => false,
        },
{
    proof {
        reveal_strlit("create error ");
        reveal_strlit(" , reason =>");
        reveal_strlit("err =>");
        reveal_strlit("directory ");
        reveal_strlit(" not empty");
    }
    match created {
        Err(e) => {
            let mut s = "create error ".to_string();
            s.append(dir);
            s.append(" , reason =>");
            s.append(e.as_str());
            Err(s)
        },
        Ok(()) => match listing {
            Some(Err(e)) => {
                let mut s = "err =>".to_string();
                s.append(e.as_str());
                Err(s)
            },
            Some(Ok(names)) => {
                if names.len() != 0 {
                    let mut s = "directory ".to_string();
                    s.append(dir);
                    s.append(" not empty");
                    Err(s)
                } else {
                    Ok(())
                }
            },
            None => Ok(()),
        },
    }
}

/// What checking the permission of the directory `dir` against `perm` comes to: the
/// text of the error, or nothing when the directory exists with exactly that
/// permission. `exists` says whether it exists and `mode` what reading its full mode
/// (file type bits included) gave; its permission is the low nine bits.
pub open spec fn permission_outcome(
    dir: Seq<char>,
    exists: bool,
    mode: Option<Result<u32, Seq<char>>>,
    perm: u32,
) -> Result<(), Seq<char>> {
    if !exists {
        Err("directory "@ + dir + " empty, cannot check permission"@)
    } else {
        match mode {
            Some(Err(e)) => Err(e),
            Some(Ok(m)) => if m % 512 != perm {
                Err("directory "@ + dir + " exist with permission "@ + numeral((m % 512) as nat, 8)
                    + ", need "@ + numeral(perm as nat, 8))
            } else {
                Ok(())
            },
            None => Ok(()),
        }
    }
}

/// Decides whether the directory `dir` has the permission `perm`: `exists` says whether
/// it exists, and `mode` what reading its full mode then gave, with the error's text on
/// failure. Only the permission bits of the mode (`mode & 0o777`) are compared, and
/// permissions are written in octal.
pub fn check_dir_permission(
    dir: &str,
    exists: bool,
    mode: Option<Result<u32, String>>,
    perm: u32,
) -> (r: Result<(), String>)
    requires
        exists ==> mode is Some,
    ensures
        match (r, permission_outcome(
            dir@,
            exists,
            match mode {
                Some(Ok(m)) => Some(Ok(m)),
                Some(Err(e)) => Some(Err(e@)),
                None => None,
            },
            perm,
        )) {
            (Ok(_), Ok(_)) => true,
            (Err(a), Err(b)) => a@ == b,
            _ => false,
        },
{
    proof {
        reveal_strlit("directory ");
        reveal_strlit(" empty, cannot check permission");
        reveal_strlit(" exist with permission ");
        reveal_strlit(", need ");
    }
    if !exists {
        let mut s = "directory ".to_string();
        s.append(dir);
        s.append(" empty, cannot check permission");
        return Err(s);
    }
    match mode {
        Some(Err(e)) => Err(e),
        Some(Ok(m)) => {
            let bits = m % 512;
            if bits != perm {
                let mut s = "directory ".to_string();
                s.append(dir);
                s.append(" exist with permission ");
                s.append(u64_to_radix(bits as u64, 8).as_str());
                s.append(", need ");
                s.append(u64_to_radix(perm as u64, 8).as_str());
                Err(s)
            } else {
                Ok(())
            }
        },
        None => Ok(()),
    }
}

} // verus!
