//! Errors, the generation of documents and their layout.

use html_to_pdf_rust::browser::instance::BrowserInstance;
use html_to_pdf_rust::browser::pool::BrowserPool;
use html_to_pdf_rust::error::{size_exceeded_message, ChromePathError, PdfError};
use html_to_pdf_rust::models::{PdfMargin, PdfOptions};
use html_to_pdf_rust::page_setup::{
    build_pdf_params, classify_margin, paper_size, parse_margin, MarginUnit,
};
use html_to_pdf_rust::pdf_service::{
    render_step, GenerateAction, GenerateInput, GenerateStep, Generation, MaintenanceEnd,
    PdfService, RenderAction, RenderStage, ShutdownAction, ShutdownInput, Source,
};

fn service(max_pdf_size_mb: usize) -> PdfService {
    let launches = vec![Some(BrowserInstance::new(1, 0)), Some(BrowserInstance::new(2, 0))];
    let pool = BrowserPool::new("/chrome".to_string(), 2, 2, &launches).unwrap();
    PdfService::new(pool, max_pdf_size_mb)
}

#[test]
fn sizes_are_written_as_a_float_would_be() {
    let mb = 1024 * 1024;
    let sizes = [
        0, 1, 5242, 5243, 5244, 10486, mb / 8, 3 * mb / 8, 5 * mb / 8, 7 * mb / 8, mb - 1, mb, mb + 1,
        11 * mb, 11 * mb + mb / 8, 12345678, 99999999, 1048576000, 123456789012, (1 << 53) - 1,
    ];
    for size in sizes {
        let size_mb = size as f64 / (1024.0 * 1024.0);
        assert_eq!(
            size_exceeded_message(size, 10),
            format!("PDF size {:.2}MB exceeds limit of {}MB", size_mb, 10)
        );
    }
    for k in 0..20_000_usize {
        let size = k * 131072;
        let size_mb = size as f64 / (1024.0 * 1024.0);
        assert_eq!(
            size_exceeded_message(size, 3),
            format!("PDF size {:.2}MB exceeds limit of {}MB", size_mb, 3)
        );
    }
}

#[test]
fn each_error_has_its_message() {
    let s = |t: &str| t.to_string();
    assert_eq!(PdfError::BrowserConnectionLost.message(), "Browser connection lost");
    assert_eq!(
        PdfError::PageCreationFailed(s("e")).message(),
        "Failed to create browser page: e"
    );
    assert_eq!(PdfError::GenerationFailed(s("e")).message(), "PDF generation failed: e");
    assert_eq!(PdfError::Timeout.message(), "Timeout while generating PDF");
    assert_eq!(PdfError::AllInstancesFailed.message(), "All browser instances failed");
    assert_eq!(
        PdfError::from(ChromePathError::NotFound { path: s("/x") }).message(),
        "Chrome path error: Chrome binary not found at path: /x"
    );
    assert_eq!(
        PdfError::SizeExceeded { size_bytes: 11_010_048, limit_mb: 10 }.message(),
        "PDF size 10.50MB exceeds limit of 10MB"
    );
}

#[test]
fn tried_paths_are_listed_in_quotes() {
    for paths in [vec![], vec!["/a"], vec!["/a b", "C:\\x", "q\"\n\u{e9}"]] {
        let paths: Vec<String> = paths.into_iter().map(|p: &str| p.to_string()).collect();
        let expected = format!("No valid Chrome installation found. Tried paths: {:?}", paths);
        assert_eq!(ChromePathError::NoValidInstallation { paths }.message(), expected);
    }
}

fn failure(step: GenerateStep) -> String {
    match step.action {
        GenerateAction::Failed(message) => message,
        other => panic!("{:?}", other),
    }
}

fn wait(step: &GenerateStep) -> u64 {
    match step.action {
        GenerateAction::Wait { millis } => millis,
        ref other => panic!("{:?}", other),
    }
}

#[test]
fn a_document_within_the_limit_is_handed_out() {
    let s = service(1);
    assert_eq!(s.max_pdf_size_bytes, 1048576);
    let mut g = Generation::new();
    assert!(matches!(
        s.generate_pdf(&mut g, GenerateInput::Begin).action,
        GenerateAction::Attempt
    ));
    let step = s.generate_pdf(&mut g, GenerateInput::Rendered(vec![7; 1048576]));
    assert!(matches!(step.action, GenerateAction::Done(ref d) if d.len() == 1048576));
    assert!(!step.mark_unhealthy);
}

#[test]
fn a_document_above_the_limit_is_refused_without_another_attempt() {
    let s = service(1);
    let mut g = Generation::new();
    s.generate_pdf_from_html(&mut g, GenerateInput::Begin);
    let step = s.generate_pdf_from_html(&mut g, GenerateInput::Rendered(vec![0; 1048577]));
    assert_eq!(failure(step), "PDF size 1.00MB exceeds limit of 1MB");
}

#[test]
fn a_limit_of_zero_is_none() {
    let s = service(0);
    let mut g = Generation::new();
    let step = s.generate_pdf(&mut g, GenerateInput::Rendered(vec![0; 3_000_000]));
    assert!(matches!(step.action, GenerateAction::Done(_)));
}

#[test]
fn three_attempts_are_made_with_growing_waits() {
    let s = service(10);
    let mut g = Generation::new();
    s.generate_pdf(&mut g, GenerateInput::Begin);
    let step = s.generate_pdf(&mut g, GenerateInput::NoInstance(PdfError::AllInstancesFailed));
    assert_eq!((wait(&step), step.mark_unhealthy), (200, false));
    assert!(matches!(
        s.generate_pdf(&mut g, GenerateInput::Waited).action,
        GenerateAction::Attempt
    ));
    let lost = PdfError::PageCreationFailed("gone".to_string());
    let step = s.generate_pdf(&mut g, GenerateInput::RenderFailed(lost));
    assert_eq!((wait(&step), step.mark_unhealthy), (400, true));
    s.generate_pdf(&mut g, GenerateInput::Waited);
    let step = s.generate_pdf(
        &mut g,
        GenerateInput::RenderFailed(PdfError::GenerationFailed("bad".to_string())),
    );
    assert!(!step.mark_unhealthy);
    assert_eq!(
        failure(step),
        "PDF generation failed after 3 attempts. Last error: PDF generation failed: bad"
    );
}

#[test]
fn a_timeout_costs_the_browser() {
    let s = service(10);
    let mut g = Generation { attempt: 2, last_error: None };
    let step = s.generate_pdf(&mut g, GenerateInput::TimedOut);
    assert!(step.mark_unhealthy);
    assert_eq!(
        failure(step),
        "PDF generation failed after 3 attempts. Last error: PDF generation timed out"
    );
    let mut g = Generation { attempt: 2, last_error: None };
    let step = s.generate_pdf_from_html(&mut g, GenerateInput::TimedOut);
    assert_eq!(
        failure(step),
        "HTML PDF generation failed after 3 attempts. Last error: HTML PDF generation timed out"
    );
    let mut g = Generation { attempt: 0, last_error: None };
    let step =
        s.generate_pdf(&mut g, GenerateInput::RenderFailed(PdfError::BrowserConnectionLost));
    assert!(step.mark_unhealthy);
}

fn shut_down(s: &mut PdfService, end: MaintenanceEnd) -> Vec<ShutdownAction> {
    let mut actions = Vec::new();
    let mut input = ShutdownInput::Begin;
    loop {
        let action = s.shutdown(input);
        actions.push(action);
        input = match action {
            ShutdownAction::SignalStop => ShutdownInput::StopSignalled,
            ShutdownAction::AwaitMaintenance { .. } => ShutdownInput::MaintenanceEnded(end),
            ShutdownAction::AwaitCleanup { .. } => ShutdownInput::CleanedUp,
            ShutdownAction::Done => return actions,
        };
    }
}

#[test]
fn shutting_down_lets_go_of_the_browsers() {
    for end in [MaintenanceEnd::Completed, MaintenanceEnd::Panicked, MaintenanceEnd::TimedOut] {
        let mut s = service(1);
        assert!(s.maintenance);
        assert_eq!(
            shut_down(&mut s, end),
            [
                ShutdownAction::SignalStop,
                ShutdownAction::AwaitMaintenance { secs: 5 },
                ShutdownAction::AwaitCleanup { count: 2, secs: 3 },
                ShutdownAction::Done,
            ]
        );
        assert!(s.pool.instances.is_empty());
        assert!(!s.maintenance);
    }
}

#[test]
fn a_second_shutdown_finds_nothing() {
    let mut s = service(1);
    shut_down(&mut s, MaintenanceEnd::TimedOut);
    assert_eq!(
        shut_down(&mut s, MaintenanceEnd::Completed),
        [
            ShutdownAction::SignalStop,
            ShutdownAction::AwaitCleanup { count: 0, secs: 3 },
            ShutdownAction::Done,
        ]
    );
    assert!(s.pool.instances.is_empty());
    assert!(!s.maintenance);
    assert_eq!(s.max_pdf_size_bytes, 1024 * 1024);
}

fn stages(source: Source) -> Vec<RenderStage> {
    let mut stage = RenderStage::OpenPage;
    let mut all = vec![stage];
    while let RenderAction::Go(next) = render_step(source, stage, Ok(())) {
        all.push(next);
        stage = next;
    }
    all
}

#[test]
fn a_page_is_loaded_and_printed() {
    assert_eq!(
        stages(Source::Url),
        [
            RenderStage::OpenPage,
            RenderStage::WaitForNavigation,
            RenderStage::Settle { millis: 500 },
            RenderStage::Print,
        ]
    );
    assert_eq!(
        stages(Source::Html),
        [
            RenderStage::OpenPage,
            RenderStage::SetContent,
            RenderStage::AwaitFonts,
            RenderStage::AwaitImages,
            RenderStage::Settle { millis: 100 },
            RenderStage::Print,
        ]
    );
}

#[test]
fn the_failure_of_a_stage_is_reported_unless_it_can_be_done_without() {
    let fail = |stage: RenderStage| render_step(Source::Html, stage, Err("e".to_string()));
    let message = |stage: RenderStage| match fail(stage) {
        RenderAction::Failed(e) => e.message(),
        other => panic!("{:?}", other),
    };
    assert_eq!(message(RenderStage::OpenPage), "Failed to create browser page: e");
    assert_eq!(
        message(RenderStage::WaitForNavigation),
        "PDF generation failed: Navigation failed: e"
    );
    assert_eq!(
        message(RenderStage::SetContent),
        "PDF generation failed: Failed to set HTML content: e"
    );
    assert_eq!(message(RenderStage::Print), "PDF generation failed: e");
    assert!(matches!(
        fail(RenderStage::AwaitFonts),
        RenderAction::Go(RenderStage::AwaitImages)
    ));
    assert!(matches!(
        fail(RenderStage::AwaitImages),
        RenderAction::Go(RenderStage::Settle { millis: 100 })
    ));
}

#[test]
fn margins_are_read_with_their_units() {
    let cases = [
        ("0", MarginUnit::Bare, "0"),
        ("1cm", MarginUnit::Centimeters, "1"),
        ("10mm", MarginUnit::Millimeters, "10"),
        ("0.5in", MarginUnit::Inches, "0.5"),
        ("96px", MarginUnit::Pixels, "96"),
        ("  1.5 CM ", MarginUnit::Centimeters, "1.5"),
        ("2ININ", MarginUnit::Inches, "2"),
        ("12", MarginUnit::Bare, "12"),
        ("abc", MarginUnit::Bare, "abc"),
        ("   ", MarginUnit::Bare, ""),
        ("\u{c9}in", MarginUnit::Inches, "\u{e9}"),
    ];
    for (text, unit, number) in cases {
        let margin = parse_margin(&Some(text.to_string())).unwrap();
        assert_eq!((margin.unit, margin.number.as_str()), (unit, number), "{}", text);
    }
    assert!(parse_margin(&None).is_none());
    assert!(parse_margin(&Some(String::new())).is_none());
    let margin = classify_margin("1IN");
    assert_eq!((margin.unit, margin.number.as_str()), (MarginUnit::Bare, "1IN"));
}

#[test]
fn units_convert_to_inches() {
    assert_eq!(MarginUnit::Inches.divisor_hundredths(true), 100);
    assert_eq!(MarginUnit::Centimeters.divisor_hundredths(true), 254);
    assert_eq!(MarginUnit::Millimeters.divisor_hundredths(false), 2540);
    assert_eq!(MarginUnit::Pixels.divisor_hundredths(false), 9600);
    assert_eq!(MarginUnit::Bare.divisor_hundredths(true), 9600);
    assert_eq!(MarginUnit::Bare.divisor_hundredths(false), 100);
}

#[test]
fn paper_formats_have_their_sizes() {
    assert_eq!(paper_size("A4"), (827, 1169));
    assert_eq!(paper_size("LETTER"), (850, 1100));
    assert_eq!(paper_size("LEGAL"), (850, 1400));
    assert_eq!(paper_size("A3"), (1169, 1654));
    assert_eq!(paper_size("A5"), (583, 827));
    assert_eq!(paper_size("letter"), (827, 1169));
}

#[test]
fn options_are_laid_out() {
    let setup = build_pdf_params(None);
    assert_eq!((setup.paper_width, setup.paper_height), (827, 1169));
    assert!(setup.print_background);
    assert!(setup.margin_top.is_none() && setup.margin_left.is_none());
    let options = PdfOptions {
        format: "Letter".to_string(),
        print_background: false,
        margin: Some(PdfMargin {
            top: Some("2cm".to_string()),
            right: None,
            bottom: Some("".to_string()),
            left: Some("15".to_string()),
        }),
    };
    let setup = build_pdf_params(Some(&options));
    assert_eq!((setup.paper_width, setup.paper_height), (850, 1100));
    assert!(!setup.print_background);
    assert_eq!(setup.margin_top.unwrap().unit, MarginUnit::Centimeters);
    assert!(setup.margin_right.is_none());
    assert!(setup.margin_bottom.is_none());
    assert_eq!(setup.margin_left.unwrap().number, "15");
}

#[test]
fn a_generation_ends_with_the_first_document() {
    let s = service(1);
    let mut g = Generation::new();
    let mut attempts = 0;
    let mut input = GenerateInput::Begin;
    let data = loop {
        input = match s.generate_pdf_from_html(&mut g, input).action {
            GenerateAction::Attempt => {
                attempts += 1;
                if attempts == 3 {
                    GenerateInput::Rendered(vec![7])
                } else {
                    GenerateInput::NoInstance(PdfError::AllInstancesFailed)
                }
            }
            GenerateAction::Wait { .. } => GenerateInput::Waited,
            GenerateAction::Done(data) => break data,
            GenerateAction::Failed(e) => panic!("{}", e),
        };
    };
    assert_eq!((attempts, data), (3, vec![7]));
}
