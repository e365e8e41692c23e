//! The LMS pages the provider fetches, and the exact web address of each.

use vstd::prelude::*;
use vstd::string::*;

use crate::BB_BASE_URL;

verus! {

/// A page of the LMS, identified by what the provider wants from it.
#[derive(Debug)]
pub enum BBPage {
    /// The signed-in user's own record.
    Me,
    /// The user's course memberships.
    CourseList { user_id: String },
    /// A course's landing page, whose sidebar lists the course's items.
    Course { id: String },
    /// A folder listing, addressed by its site-relative URL.
    Folder { url: String },
}

impl BBPage {
    /// The full web address of the page.
    pub open spec fn spec_url(&self) -> Seq<char> {
        match self {
            BBPage::Me => BB_BASE_URL@ + "/learn/api/v1/users/me?expand=systemRoles,insRoles"@,
            BBPage::CourseList { user_id } => BB_BASE_URL@ + "/learn/api/v1/users/"@ + user_id@
                + "/memberships?expand=course.effectiveAvailability,course.permissions,courseRole&includeCount=true&limit=10000"@,
            BBPage::Course { id } => BB_BASE_URL@
                + "/webapps/blackboard/execute/announcement?method=search&course_id="@ + id@,
            BBPage::Folder { url } => BB_BASE_URL@ + url@,
        }
    }

    /// Builds the full web address of the page.
    pub fn url(&self) -> (r: String)
        ensures
            r@ == self.spec_url(),
    {
        let mut s = String::new();
        s.append(BB_BASE_URL);
        match self {
            BBPage::Me => {
                s.append("/learn/api/v1/users/me?expand=systemRoles,insRoles");
            },
            BBPage::CourseList { user_id } => {
                s.append("/learn/api/v1/users/");
                s.append(user_id.as_str());
                s.append(
                    "/memberships?expand=course.effectiveAvailability,course.permissions,courseRole&includeCount=true&limit=10000",
                );
            },
            BBPage::Course { id } => {
                s.append("/webapps/blackboard/execute/announcement?method=search&course_id=");
                s.append(id.as_str());
            },
            BBPage::Folder { url } => {
                s.append(url.as_str());
            },
        }
        proof {
            assert(s@ =~= self.spec_url());
        }
        s
    }
}

impl Clone for BBPage {
    fn clone(&self) -> (res: Self)
        ensures
            res.spec_url() == self.spec_url(),
    {
        match self {
            BBPage::Me => BBPage::Me,
            BBPage::CourseList { user_id } => BBPage::CourseList { user_id: user_id.clone() },
            BBPage::Course { id } => BBPage::Course { id: id.clone() },
            BBPage::Folder { url } => BBPage::Folder { url: url.clone() },
        }
    }
}

} // verus!
