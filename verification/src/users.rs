//! The user registry: the profiles of the registered accounts.

use vstd::prelude::*;
use crate::bounded::{list_as_vec, list_new};
use crate::ledger::{Ledger, UserEntry};
use crate::model::new_user_data;
use crate::types::{AccountId, AuditInfo, Document, Error, UserData};

verus! {

impl Ledger {
    /// Gives an account a profile.
    pub fn register_user(
        &mut self,
        caller: AccountId,
        target: AccountId,
        name: Vec<u8>,
        image: Vec<u8>,
        email: Vec<u8>,
        documents: Option<Vec<Document>>,
        now: u64,
    ) -> (registered: Result<(), Error>)
        requires
            old(self).wf(),
        ensures
            final(self).wf(),
            match old(self)@.register_user(
                target,
                new_user_data(caller, name, image, email, documents, now),
            ) {
                Ok(next) => registered is Ok && final(self)@ == next,
                Err(error) => registered matches Err(refusal) && refusal == error && final(self)@
                    == old(self)@,
            },
    {
        let ghost before = *self;
        if self.users.contains_key(&target) {
            return Err(Error::UserAlreadyRegistered);
        }
        let data = UserData {
            name,
            image,
            email,
            documents,
            audit: AuditInfo {
                created_by: caller,
                created_at: now,
                modified_by: caller,
                modified_at: now,
            },
        };
        self.users.insert_new(target, UserEntry { data, projects: list_new() });
        proof {
            assert(self@.users =~= before@.register_user(target, data)->Ok_0.users);
            assert(self@ =~= before@.register_user(target, data)->Ok_0);
            before@.lemma_register_user_inv(target, data);
        }
        Ok(())
    }

    /// Changes the profile of an account: each field that is given replaces
    /// the stored one.
    pub fn update_user(
        &mut self,
        caller: AccountId,
        target: AccountId,
        name: Option<Vec<u8>>,
        image: Option<Vec<u8>>,
        email: Option<Vec<u8>>,
        documents: Option<Vec<Document>>,
        now: u64,
    ) -> (updated: Result<(), Error>)
        requires
            old(self).wf(),
        ensures
            final(self).wf(),
            match old(self)@.update_user(caller, target, name, image, email, documents, now) {
                Ok(next) => updated is Ok && final(self)@ == next,
                Err(error) => updated matches Err(refusal) && refusal == error && final(self)@
                    == old(self)@,
            },
    {
        let ghost before = *self;
        let i = match self.users.find(&target) {
            Some(i) => i,
            None => {
                return Err(Error::UserNotRegistered);
            },
        };
        if let Some(name) = name {
            self.users.values[i].data.name = name;
        }
        if let Some(image) = image {
            self.users.values[i].data.image = image;
        }
        if let Some(email) = email {
            self.users.values[i].data.email = email;
        }
        if documents.is_some() {
            self.users.values[i].data.documents = documents;
        }
        self.users.values[i].data.audit.modified_by = caller;
        self.users.values[i].data.audit.modified_at = now;
        proof {
            assert(self.users.values@ =~= before.users.values@.update(
                i as int,
                self.users.values@[i as int],
            ));
            self.lemma_user_replaced(&before, i as int);
            assert(self@ =~= before@.update_user(
                caller,
                target,
                name,
                image,
                email,
                documents,
                now,
            )->Ok_0);
            before@.lemma_update_user_inv(caller, target, name, image, email, documents, now);
        }
        Ok(())
    }

    /// Takes the profile of an account away. The account must belong to no
    /// project.
    pub fn delete_user(&mut self, target: AccountId) -> (deleted: Result<(), Error>)
        requires
            old(self).wf(),
        ensures
            final(self).wf(),
            match old(self)@.delete_user(target) {
                Ok(next) => deleted is Ok && final(self)@ == next,
                Err(error) => deleted matches Err(refusal) && refusal == error && final(self)@
                    == old(self)@,
            },
    {
        let ghost before = *self;
        let i = match self.users.find(&target) {
            Some(i) => i,
            None => {
                return Err(Error::UserNotRegistered);
            },
        };
        if list_as_vec(&self.users.values[i].projects).len() > 0 {
            return Err(Error::CannotDeleteUserWithAssignedProjects);
        }
        self.users.remove_at(i);
        proof {
            assert(self@.users =~= before@.users.remove(target));
            assert(self@ =~= before@.delete_user(target)->Ok_0);
            before@.lemma_delete_user_inv(target);
        }
        Ok(())
    }
}

} // verus!
