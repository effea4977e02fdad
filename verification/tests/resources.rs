use retgui::error::RetGuiError;
use retgui::resources::font_upload_result;
use retgui::resources::{same_resource, update_resources, ResourceId, ResourceType};

#[test]
fn each_resource_is_requested_once() {
    let logo = (ResourceId::File("logo.png".to_string()), ResourceType::Image);
    let font = (ResourceId::Url("http://x/font.ttf".to_string()), ResourceType::Font);
    let icon = (ResourceId::StaticBytes(vec![1, 2, 3]), ResourceType::TinyVg);
    let requests = vec![logo.clone(), font.clone(), logo.clone(), icon.clone()];
    let mut in_progress = vec![font.clone()];
    let started = update_resources(&requests, &vec![false, false, false, false], &mut in_progress);
    assert_eq!(started, vec![0, 3]);
    assert_eq!(in_progress, vec![font.clone(), logo.clone(), icon.clone()]);
    let again = update_resources(&vec![icon.clone()], &vec![false], &mut in_progress);
    assert!(again.is_empty());
    let loaded = update_resources(&vec![(ResourceId::File("a".to_string()), ResourceType::Image)], &vec![true], &mut in_progress);
    assert!(loaded.is_empty());
    assert_eq!(in_progress.len(), 3);
}

#[test]
fn resources_compare_by_contents() {
    assert!(same_resource(&ResourceId::StaticBytes(vec![1, 2]), &ResourceId::StaticBytes(vec![1, 2])));
    assert!(!same_resource(&ResourceId::StaticBytes(vec![1]), &ResourceId::StaticBytes(vec![1, 2])));
    assert!(!same_resource(&ResourceId::Url("a".to_string()), &ResourceId::File("a".to_string())));
    let image = (ResourceId::File("a".to_string()), ResourceType::Image);
    let font = (ResourceId::File("a".to_string()), ResourceType::Font);
    let mut in_progress = vec![image];
    assert_eq!(update_resources(&vec![font], &vec![false], &mut in_progress), vec![0]);
}

#[test]
fn font_uploads_need_a_font() {
    assert!(font_upload_result(2).is_ok());
    match font_upload_result(0) {
        Err(RetGuiError::ResourceError(e)) => assert_eq!(e.message, "No fonts found in uploaded data"),
        _ => panic!("expected a resource error"),
    }
}
