//! The work on each chosen file, one step at a time: look the file up, name its temporary
//! copies, create the local file, download into it, convert it; any failure records one
//! error and moves on to the next file.
use vstd::prelude::*;
use crate::files::FileInfo;
use crate::jobs::{
    convert_error, converted_names, converted_paths, create_error, directly_in_temp,
    download_error, fresh_job, is_plain_file_name, lookup_error, new_job, ConversionJob,
    ConversionRun, FileOutcome,
};

verus! {

/// The step due for the current file.
#[derive(Clone, Copy, Debug, PartialEq, Eq, Structural)]
pub enum FileStage {
    /// Look the file up with the messenger.
    LookUp,
    /// Create the local file for the download.
    Create,
    /// Download the file into the local file.
    Download,
    /// Convert the downloaded file.
    Convert,
}

/// What the caller does next.
#[derive(Debug)]
pub enum FileAction {
    /// Ask the messenger for the file `file_id`.
    LookUp { file_id: String },
    /// Create the local file at `path`.
    CreateFile { path: String },
    /// Download the looked-up file into the created local file.
    Download,
    /// Convert `input` (extension `ext_in`) into `output` (extension `ext_out`).
    Convert { input: String, output: String, ext_in: String, ext_out: String },
    /// Every file has been dealt with.
    Finished,
}

/// `job` is one `new_job` may make for `file` and `target`.
pub open spec fn job_made(file: FileInfo, target: Seq<char>, job: ConversionJob) -> bool {
    &&& fresh_job(file, target, job)
    &&& is_plain_file_name(file.file_name@) && !file.ext@.contains('/') && !target.contains('/')
        ==> directly_in_temp(job.input_path@) && directly_in_temp(job.output_path@)
}

/// The progress through the files: the index of the current file, its due step, and its
/// job once it has one.
pub struct FileSteps {
    pub index: usize,
    pub stage: FileStage,
    pub job: Option<ConversionJob>,
}

impl FileSteps {
    /// `self` is a progress through `files` converted to `target`: past the lookup, the
    /// current file exists and has the job made for it.
    pub open spec fn fits(&self, files: Seq<FileInfo>, target: Seq<char>) -> bool {
        &&& self.index <= files.len()
        &&& self.stage != FileStage::LookUp ==> {
            &&& self.index < files.len()
            &&& self.job matches Some(j) && job_made(files[self.index as int], target, j)
        }
    }

    /// Progress before the first file.
    pub fn new() -> (res: Self)
        ensures
            res.index == 0,
            res.stage == FileStage::LookUp,
            res.job is None,
    {
        FileSteps { index: 0, stage: FileStage::LookUp, job: None }
    }

    /// The next step for the files: the current file's due step, or the end once every file
    /// was dealt with.
    pub fn action(&self, files: &Vec<FileInfo>, target: &str) -> (res: FileAction)
        requires
            self.fits(files@, target@),
        ensures
            match self.stage {
                FileStage::LookUp => if self.index == files.len() {
                    res is Finished
                } else {
                    res matches FileAction::LookUp { file_id } && file_id@
                        == files@[self.index as int].file_id@
                },
                FileStage::Create => res matches FileAction::CreateFile { path } && path@
                    == self.job->0.input_path@,
                FileStage::Download => res is Download,
                FileStage::Convert => res matches FileAction::Convert { input, output, ext_in, ext_out }
                    && input@ == self.job->0.input_path@ && output@ == self.job->0.output_path@ && ext_in@
                    == files@[self.index as int].ext@ && ext_out@ == target@,
            },
    {
        match self.stage {
            FileStage::LookUp => {
                if self.index == files.len() {
                    FileAction::Finished
                } else {
                    FileAction::LookUp { file_id: files[self.index].file_id.clone() }
                }
            },
            FileStage::Create => {
                let job = self.job.as_ref().unwrap();
                FileAction::CreateFile { path: job.input_path.clone() }
            },
            FileStage::Download => FileAction::Download,
            FileStage::Convert => {
                let job = self.job.as_ref().unwrap();
                FileAction::Convert {
                    input: job.input_path.clone(),
                    output: job.output_path.clone(),
                    ext_in: files[self.index].ext.clone(),
                    ext_out: String::from_str(target),
                }
            },
        }
    }

    fn next_file(&mut self)
        requires
            old(self).index < usize::MAX,
        ensures
            final(self).index == old(self).index + 1,
            final(self).stage == FileStage::LookUp,
            final(self).job is None,
    {
        self.index = self.index + 1;
        self.stage = FileStage::LookUp;
        self.job = None;
    }

    /// Moves on once the due step was carried out with `result`. A successful step leads to
    /// the next step of the same file (a lookup to naming its copies and creating the local
    /// file, creating to downloading, downloading to converting); a conversion, or any
    /// failure, ends the file: `run` records the converted file or one error message, and the
    /// temporary paths to remove, and the next file is due.
    pub fn advance(
        &mut self,
        files: &Vec<FileInfo>,
        target: &str,
        run: &mut ConversionRun,
        result: Result<(), String>,
    )
        requires
            old(self).fits(files@, target@),
        ensures
            final(self).fits(files@, target@),
            old(self).stage == FileStage::LookUp && old(self).index == files.len() ==> {
                &&& final(self).index == old(self).index
                &&& final(self).stage == FileStage::LookUp
                &&& final(run).errors@ == old(run).errors@
                &&& final(run).cleanup@ == old(run).cleanup@
                &&& final(run).converted@ == old(run).converted@
            },
            old(self).stage == FileStage::LookUp && old(self).index < files.len() ==> {
                let file = files@[old(self).index as int];
                match result {
                    Err(e) => {
                        &&& final(self).index == old(self).index + 1
                        &&& final(self).stage == FileStage::LookUp
                        &&& final(run).errors.deep_view() == old(run).errors.deep_view().push(
                            lookup_error(file.file_name@, e@),
                        )
                        &&& final(run).cleanup@ == old(run).cleanup@
                        &&& final(run).converted@ == old(run).converted@
                    },
                    Ok(()) => {
                        &&& final(run).cleanup@ == old(run).cleanup@
                        &&& final(run).converted@ == old(run).converted@
                        &&& final(self).stage == FileStage::Create ==> {
                            &&& final(self).index == old(self).index
                            &&& final(run).errors@ == old(run).errors@
                        }
                        &&& final(self).stage != FileStage::Create ==> {
                            &&& final(self).index == old(self).index + 1
                            &&& final(self).stage == FileStage::LookUp
                            &&& exists|e: Seq<char>|
                                final(run).errors.deep_view() == old(run).errors.deep_view().push(
                                    #[trigger] create_error(e),
                                )
                        }
                    },
                }
            },
            old(self).stage == FileStage::Create ==> {
                let file = files@[old(self).index as int];
                let job = old(self).job->0;
                match result {
                    Err(e) => {
                        &&& final(self).index == old(self).index + 1
                        &&& final(self).stage == FileStage::LookUp
                        &&& final(run).errors.deep_view() == old(run).errors.deep_view().push(
                            create_error(e@),
                        )
                        &&& final(run).cleanup.deep_view() == old(run).cleanup.deep_view().push(
                            job.input_path@,
                        )
                        &&& final(run).converted@ == old(run).converted@
                    },
                    Ok(()) => {
                        &&& final(self).index == old(self).index
                        &&& final(self).stage == FileStage::Download
                        &&& final(run).errors@ == old(run).errors@
                        &&& final(run).cleanup@ == old(run).cleanup@
                        &&& final(run).converted@ == old(run).converted@
                    },
                }
            },
            old(self).stage == FileStage::Download ==> {
                let file = files@[old(self).index as int];
                let job = old(self).job->0;
                match result {
                    Err(e) => {
                        &&& final(self).index == old(self).index + 1
                        &&& final(self).stage == FileStage::LookUp
                        &&& final(run).errors.deep_view() == old(run).errors.deep_view().push(
                            download_error(file.file_name@, e@),
                        )
                        &&& final(run).cleanup.deep_view() == old(run).cleanup.deep_view().push(
                            job.input_path@,
                        )
                        &&& final(run).converted@ == old(run).converted@
                    },
                    Ok(()) => {
                        &&& final(self).index == old(self).index
                        &&& final(self).stage == FileStage::Convert
                        &&& final(run).errors@ == old(run).errors@
                        &&& final(run).cleanup@ == old(run).cleanup@
                        &&& final(run).converted@ == old(run).converted@
                    },
                }
            },
            old(self).stage == FileStage::Convert ==> {
                let file = files@[old(self).index as int];
                let job = old(self).job->0;
                &&& final(self).index == old(self).index + 1
                &&& final(self).stage == FileStage::LookUp
                &&& final(run).cleanup.deep_view() == old(run).cleanup.deep_view().push(
                    job.input_path@,
                ).push(job.output_path@)
                &&& match result {
                    Err(e) => {
                        &&& final(run).errors.deep_view() == old(run).errors.deep_view().push(
                            convert_error(file.file_name@, e@),
                        )
                        &&& final(run).converted@ == old(run).converted@
                    },
                    Ok(()) => {
                        &&& final(run).errors@ == old(run).errors@
                        &&& converted_paths(final(run).converted@) == converted_paths(
                            old(run).converted@,
                        ).push(job.output_path@)
                        &&& converted_names(final(run).converted@) == converted_names(
                            old(run).converted@,
                        ).push(job.display_name@)
                    },
                }
            },
    {
        if self.stage == FileStage::LookUp && self.index == files.len() {
            return;
        }
        let i = self.index;
        assert(i < files.len());
        let file = &files[i];
        match self.stage {
            FileStage::LookUp => {
                match result {
                    Err(e) => {
                        run.lookup_failed(file, e.as_str());
                        self.next_file();
                    },
                    Ok(()) => {
                        match new_job(file, target) {
                            Ok(job) => {
                                self.job = Some(job);
                                self.stage = FileStage::Create;
                            },
                            Err(e) => {
                                run.temp_name_failed(e.as_str());
                                self.next_file();
                            },
                        }
                    },
                }
            },
            FileStage::Create => {
                let job = self.job.take().unwrap();
                match result {
                    Err(e) => {
                        run.record(file, &job, FileOutcome::CreateFailed(e));
                        self.next_file();
                    },
                    Ok(()) => {
                        self.job = Some(job);
                        self.stage = FileStage::Download;
                    },
                }
            },
            FileStage::Download => {
                let job = self.job.take().unwrap();
                match result {
                    Err(e) => {
                        run.record(file, &job, FileOutcome::DownloadFailed(e));
                        self.next_file();
                    },
                    Ok(()) => {
                        self.job = Some(job);
                        self.stage = FileStage::Convert;
                    },
                }
            },
            FileStage::Convert => {
                let job = self.job.take().unwrap();
                match result {
                    Err(e) => {
                        run.record(file, &job, FileOutcome::ConvertFailed(e));
                    },
                    Ok(()) => {
                        run.record(file, &job, FileOutcome::Converted);
                    },
                }
                self.next_file();
            },
        }
    }
}

} // verus!
