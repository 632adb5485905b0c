//! Local settings: the selected profile, desktop preferences and the time of
//! the last automatic update check. A change becomes visible only once stored.
use crate::errors::CoreError;
use crate::host::{CoreHost, SettingsDocument};
use crate::model::{clone_optional_string, DesktopSettings, default_desktop_settings};
use vstd::prelude::*;

verus! {

/// The settings document version this store reads and writes.
pub const SETTINGS_SCHEMA_VERSION: u32 = 1;

/// The abstract value of the settings.
pub struct SettingsView {
    pub selected_profile_id: Option<Seq<char>>,
    pub desktop: DesktopSettings,
    pub last_automatic_update_check_unix_seconds: Option<u64>,
}

/// The settings store.
pub struct SettingsStore {
    document: SettingsDocument,
}

impl View for SettingsStore {
    type V = SettingsView;

    closed spec fn view(&self) -> SettingsView {
        SettingsView {
            selected_profile_id: match self.document.selected_profile_id {
                Some(id) => Some(id@),
                None => None,
            },
            desktop: self.document.desktop,
            last_automatic_update_check_unix_seconds: self.document.last_automatic_update_check_unix_seconds,
        }
    }
}

/// The settings of a document.
pub open spec fn document_settings(document: SettingsDocument) -> SettingsView {
    SettingsView {
        selected_profile_id: match document.selected_profile_id {
            Some(id) => Some(id@),
            None => None,
        },
        desktop: document.desktop,
        last_automatic_update_check_unix_seconds: document.last_automatic_update_check_unix_seconds,
    }
}

impl SettingsStore {
    /// Settings of a fresh installation.
    pub fn fresh() -> (res: Self)
        ensures
            res@ == (SettingsView {
                selected_profile_id: None,
                desktop: default_desktop_settings(),
                last_automatic_update_check_unix_seconds: None,
            }),
    {
        SettingsStore {
            document: SettingsDocument {
                schema_version: SETTINGS_SCHEMA_VERSION,
                selected_profile_id: None,
                desktop: DesktopSettings::defaults(),
                last_automatic_update_check_unix_seconds: None,
            },
        }
    }

    /// Settings read from a stored document of the supported version.
    pub fn from_document(document: SettingsDocument) -> (res: Result<Self, CoreError>)
        ensures
            document.schema_version != SETTINGS_SCHEMA_VERSION ==> res == Err::<SettingsStore, CoreError>(
                CoreError::UnsupportedSettingsSchema(document.schema_version),
            ),
            document.schema_version == SETTINGS_SCHEMA_VERSION ==> res is Ok && res->Ok_0@ == document_settings(document),
    {
        if document.schema_version != SETTINGS_SCHEMA_VERSION {
            return Err(CoreError::UnsupportedSettingsSchema(document.schema_version));
        }
        Ok(SettingsStore { document })
    }

    /// The selected profile's id.
    pub fn selected_profile_id(&self) -> (res: Option<String>)
        ensures
            match res {
                Some(id) => self@.selected_profile_id == Some(id@),
                None => self@.selected_profile_id is None,
            },
    {
        clone_optional_string(&self.document.selected_profile_id)
    }

    /// The desktop preferences.
    pub fn desktop(&self) -> (res: DesktopSettings)
        ensures
            res == self@.desktop,
    {
        self.document.desktop
    }

    /// When the last automatic update check ran.
    pub fn last_automatic_update_check_unix_seconds(&self) -> (res: Option<u64>)
        ensures
            res == self@.last_automatic_update_check_unix_seconds,
    {
        self.document.last_automatic_update_check_unix_seconds
    }

    fn persist<H: CoreHost>(&mut self, document: SettingsDocument, host: &mut H) -> (res: Result<(), CoreError>)
        ensures
            res is Ok ==> final(self)@ == document_settings(document),
            res is Err ==> final(self)@ == old(self)@ && res->Err_0 is Storage,
    {
        match host.write_settings(&document) {
            Ok(()) => {
                self.document = document;
                Ok(())
            },
            Err(failure) => Err(CoreError::Storage { message: failure.message, invalid_data: failure.invalid_data }),
        }
    }

    fn copy_document(&self) -> (res: SettingsDocument)
        ensures
            document_settings(res) == self@,
            res.schema_version == SETTINGS_SCHEMA_VERSION || res.schema_version == self.document.schema_version,
    {
        SettingsDocument {
            schema_version: self.document.schema_version,
            selected_profile_id: clone_optional_string(&self.document.selected_profile_id),
            desktop: self.document.desktop,
            last_automatic_update_check_unix_seconds: self.document.last_automatic_update_check_unix_seconds,
        }
    }

    /// Selects a profile.
    pub fn select_profile<H: CoreHost>(&mut self, profile_id: String, host: &mut H) -> (res: Result<(), CoreError>)
        ensures
            res is Ok ==> final(self)@ == (SettingsView { selected_profile_id: Some(profile_id@), ..old(self)@ }),
            res is Err ==> final(self)@ == old(self)@ && res->Err_0 is Storage,
    {
        let mut document = self.copy_document();
        document.selected_profile_id = Some(profile_id);
        self.persist(document, host)
    }

    /// Replaces the desktop preferences.
    pub fn update_desktop<H: CoreHost>(&mut self, desktop: DesktopSettings, host: &mut H) -> (res: Result<(), CoreError>)
        ensures
            res is Ok ==> final(self)@ == (SettingsView { desktop, ..old(self)@ }),
            res is Err ==> final(self)@ == old(self)@ && res->Err_0 is Storage,
    {
        let mut document = self.copy_document();
        document.desktop = desktop;
        self.persist(document, host)
    }

    /// Records when an automatic update check ran.
    pub fn record_automatic_update_check<H: CoreHost>(&mut self, unix_seconds: u64, host: &mut H) -> (res: Result<(), CoreError>)
        ensures
            res is Ok ==> final(self)@ == (SettingsView {
                last_automatic_update_check_unix_seconds: Some(unix_seconds),
                ..old(self)@
            }),
            res is Err ==> final(self)@ == old(self)@ && res->Err_0 is Storage,
    {
        let mut document = self.copy_document();
        document.last_automatic_update_check_unix_seconds = Some(unix_seconds);
        self.persist(document, host)
    }
}

} // verus!
