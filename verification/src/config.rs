//! Static configuration: the known catalog systems and the accounts that
//! log into them, with the load-time check that every account names a
//! known library.

use vstd::prelude::*;

use crate::errors::IopacError;
use vstd::string::StringExecFns;

verus! {

/// One catalog system, identified by its base URL.
#[derive(Debug, Clone)]
pub struct Library {
    pub url: String,
}

/// One set of catalog-login credentials tied to a library.
#[derive(Debug, Clone)]
pub struct Account {
    pub library: String,
    pub customer_id: String,
    pub password: String,
}

/// The spec-level face of `Library`.
pub struct LibraryView {
    pub url: Seq<char>,
}

/// The spec-level face of `Account`.
pub struct AccountView {
    pub library: Seq<char>,
    pub customer_id: Seq<char>,
    pub password: Seq<char>,
}

impl View for Library {
    type V = LibraryView;

    open spec fn view(&self) -> LibraryView {
        LibraryView { url: self.url@ }
    }
}

impl DeepView for Library {
    type V = LibraryView;

    open spec fn deep_view(&self) -> LibraryView {
        self.view()
    }
}

impl View for Account {
    type V = AccountView;

    open spec fn view(&self) -> AccountView {
        AccountView {
            library: self.library@,
            customer_id: self.customer_id@,
            password: self.password@,
        }
    }
}

impl DeepView for Account {
    type V = AccountView;

    open spec fn deep_view(&self) -> AccountView {
        self.view()
    }
}

/// The whole configuration: named libraries and named accounts.
#[derive(Debug)]
pub struct IopacConfig {
    pub libraries: Vec<(String, Library)>,
    pub accounts: Vec<(String, Account)>,
}

/// Whether a library of the given name is configured.
pub open spec fn has_library(libs: Seq<(Seq<char>, LibraryView)>, name: Seq<char>) -> bool {
    exists|j: int| 0 <= j < libs.len() && (#[trigger] libs[j]).0 == name
}

/// The library name of the first account (in listed order) that refers to
/// no configured library.
pub open spec fn first_missing_from(
    accounts: Seq<(Seq<char>, AccountView)>,
    libs: Seq<(Seq<char>, LibraryView)>,
    i: int,
) -> Option<Seq<char>>
    decreases accounts.len() - i,
{
    if i < 0 || i >= accounts.len() {
        None
    } else if !has_library(libs, accounts[i].1.library) {
        Some(accounts[i].1.library)
    } else {
        first_missing_from(accounts, libs, i + 1)
    }
}

impl IopacConfig {
    /// Every account refers to a configured library.
    pub open spec fn wf(self) -> bool {
        forall|i: int|
            0 <= i < self.accounts@.len() ==> has_library(
                self.libraries.deep_view(),
                (#[trigger] self.accounts@[i]).1@.library,
            )
    }

    /// Validates the configuration: succeeds exactly when every account's
    /// library name is configured, and otherwise reports the first account's
    /// missing library by name.
    pub fn check(&self) -> (r: Result<(), IopacError>)
        ensures
            r is Ok <==> self.wf(),
            match r {
                Result::Ok(()) => true,
                Result::Err(e) => {
                    &&& first_missing_from(self.accounts.deep_view(), self.libraries.deep_view(), 0)
                        matches Some(name) && e.0@ == "Missing library "@ + name
                },
            },
    {
        let ghost av = self.accounts.deep_view();
        let ghost lv = self.libraries.deep_view();
        let n = self.accounts.len();
        let mut i: usize = 0;
        while i < n
            invariant
                av == self.accounts.deep_view(),
                lv == self.libraries.deep_view(),
                n == av.len(),
                n == self.accounts@.len(),
                0 <= i <= n,
                forall|k: int| 0 <= k < i ==> has_library(lv, (#[trigger] av[k]).1.library),
                first_missing_from(av, lv, 0) == first_missing_from(av, lv, i as int),
            decreases n - i,
        {
            assert(av[i as int].1 == self.accounts@[i as int].1@);
            if !self.contains_library(&self.accounts[i].1.library) {
                let msg = String::from_str("Missing library ").concat(
                    self.accounts[i].1.library.as_str(),
                );
                return Err(IopacError(msg));
            }
            i = i + 1;
        }
        proof {
            assert forall|k: int|
                0 <= k < self.accounts@.len() implies has_library(
                lv,
                (#[trigger] self.accounts@[k]).1@.library,
            ) by {
                assert(av[k].1 == self.accounts@[k].1@);
                assert(has_library(lv, av[k].1.library));
            }
        }
        Ok(())
    }

    /// Whether a library of the given name is configured.
    fn contains_library(&self, name: &String) -> (r: bool)
        ensures
            r == has_library(self.libraries.deep_view(), name@),
    {
        let ghost lv = self.libraries.deep_view();
        let n = self.libraries.len();
        let mut j: usize = 0;
        while j < n
            invariant
                lv == self.libraries.deep_view(),
                n == lv.len(),
                n == self.libraries@.len(),
                0 <= j <= n,
                forall|k: int| 0 <= k < j ==> (#[trigger] lv[k]).0 != name@,
            decreases n - j,
        {
            assert(lv[j as int].0 == self.libraries@[j as int].0@);
            if self.libraries[j].0.eq(name) {
                return true;
            }
            j = j + 1;
        }
        false
    }

    /// The base URL of the named library, if configured.
    pub fn library_url(&self, name: &String) -> (r: Option<String>)
        ensures
            r is Some <==> has_library(self.libraries.deep_view(), name@),
            match r {
                Option::Some(url) => exists|j: int|
                    0 <= j < self.libraries.deep_view().len() && (#[trigger] self.libraries.deep_view()[j])
                        == (name@, LibraryView { url: url@ }),
                Option::None => true,
            },
    {
        let ghost lv = self.libraries.deep_view();
        let n = self.libraries.len();
        let mut j: usize = 0;
        while j < n
            invariant
                lv == self.libraries.deep_view(),
                n == lv.len(),
                n == self.libraries@.len(),
                0 <= j <= n,
                forall|k: int| 0 <= k < j ==> (#[trigger] lv[k]).0 != name@,
            decreases n - j,
        {
            assert(lv[j as int].0 == self.libraries@[j as int].0@);
            assert(lv[j as int].1 == self.libraries@[j as int].1@);
            if self.libraries[j].0.eq(name) {
                let url = self.libraries[j].1.url.clone();
                assert(lv[j as int] == (name@, LibraryView { url: url@ }));
                return Some(url);
            }
            j = j + 1;
        }
        None
    }
}

} // verus!
