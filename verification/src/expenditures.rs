//! The expenditure ledger: the budget line items of the projects.

use vstd::prelude::*;
use crate::bounded::{list_as_vec, list_try_push};
use crate::ledger::Ledger;
use crate::model::new_expenditure_data;
use crate::types::{
    AccountId, AuditInfo, Error, ExpenditureData, ExpenditureId, ExpenditureSubType,
    ExpenditureType, ProjectId, MAX_EXPENDITURES_PER_PROJECT,
};

verus! {

impl Ledger {
    /// Adds a line item to the budget of a project, under an identifier that
    /// no expenditure has.
    pub fn create_expenditure(
        &mut self,
        creator: AccountId,
        expenditure: ExpenditureId,
        project: ProjectId,
        name: Vec<u8>,
        expenditure_type: ExpenditureType,
        expenditure_subtype: ExpenditureSubType,
        budget_amount: Option<u64>,
        naics_code: Option<u32>,
        jobs_multiplier: Option<u32>,
        now: u64,
    ) -> (created: Result<(), Error>)
        requires
            old(self).wf(),
        ensures
            final(self).wf(),
            match old(self)@.create_expenditure(
                expenditure,
                new_expenditure_data(
                    creator,
                    project,
                    name,
                    expenditure_type,
                    expenditure_subtype,
                    budget_amount,
                    naics_code,
                    jobs_multiplier,
                    now,
                ),
            ) {
                Ok(next) => created is Ok && final(self)@ == next,
                Err(error) => created matches Err(refusal) && refusal == error && final(self)@
                    == old(self)@,
            },
    {
        let ghost before = *self;
        let i = match self.projects.find(&project) {
            Some(i) => i,
            None => {
                return Err(Error::ProjectNotFound);
            },
        };
        match expenditure_subtype {
            ExpenditureSubType::Parent => {
                return Err(Error::CannotCreateParentExpenditure);
            },
            ExpenditureSubType::Child => {},
        }
        if self.expenditures.contains_key(&expenditure) {
            return Err(Error::ExpenditureIdAlreadyInUse);
        }
        if list_as_vec(&self.projects.values[i].expenditures).len()
            >= MAX_EXPENDITURES_PER_PROJECT as usize {
            return Err(Error::MaxExpendituresPerProjectReached);
        }
        let data = ExpenditureData {
            project_id: project,
            name,
            expenditure_type,
            expenditure_subtype,
            budget_amount,
            naics_code,
            jobs_multiplier,
            audit: AuditInfo {
                created_by: creator,
                created_at: now,
                modified_by: creator,
                modified_at: now,
            },
        };
        let listed = list_try_push(&mut self.projects.values[i].expenditures, expenditure);
        self.expenditures.insert_new(expenditure, data);
        proof {
            assert(listed is Ok);
            assert(self.projects.values@ =~= before.projects.values@.update(
                i as int,
                self.projects.values@[i as int],
            ));
            self.lemma_project_replaced(&before, i as int);
            assert(self@ =~= before@.create_expenditure(expenditure, data)->Ok_0);
            before@.lemma_create_expenditure_inv(expenditure, data);
        }
        Ok(())
    }
}

} // verus!
