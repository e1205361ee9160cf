use oatui::decode::{
    begin, format_of_extension, format_of_lowered, parsers_for, proceed, Format, ParseError,
    Parser, Reading,
};
use oatui::document::{
    Components, Document, MediaDecl, Named, OperationDecl, ParameterDecl, PathDecl, PathItemDecl,
    Primitive, ReferenceOr, RequestBodyDecl, ResponseDecl, SchemaDecl, StatusDecl, StatusKey,
};
use oatui::model::{ApiSpec, HttpMethod, ParameterLocation};
use oatui::parser::convert_openapi;
use oatui::resolve::{
    find_component, resolve_parameter, resolve_ref, resolve_request_body, resolve_response,
    schema_type_to_string, type_to_string,
};
use oatui::sorting::{method_order, sort_endpoints};

const PETSTORE: &str = "
openapi: 3.0.0
info:
  title: Petstore API
  version: 1.0.0
  description: A sample API for testing oatui
paths:
  /pets/{petId}:
    put:
      summary: Update a pet
      parameters:
        - name: petId
          in: path
          required: true
          schema:
            type: string
      requestBody:
        required: true
        content:
          application/json:
            schema:
              $ref: '#/components/schemas/Pet'
      responses:
        '200':
          description: Updated
    delete:
      summary: Delete a pet
      parameters:
        - name: petId
          in: path
          required: true
          schema:
            type: string
      responses:
        '204':
          description: Deleted
    get:
      summary: Info for a specific pet
      operationId: showPetById
      parameters:
        - name: petId
          in: path
          required: true
          description: The id of the pet to retrieve
          schema:
            type: string
      responses:
        '200':
          description: Expected response to a valid request
          content:
            application/json:
              schema:
                $ref: '#/components/schemas/Pet'
        '404':
          description: Pet not found
  /pets:
    post:
      summary: Create a pet
      operationId: createPet
      tags:
        - pets
      requestBody:
        required: true
        content:
          application/json:
            schema:
              $ref: '#/components/schemas/Pet'
          application/xml:
            schema:
              type: string
      responses:
        '201':
          description: Created
    get:
      summary: List all pets
      operationId: listPets
      tags:
        - pets
      parameters:
        - name: limit
          in: query
          description: How many items to return at one time
          required: false
          schema:
            type: integer
      responses:
        '200':
          description: A list of pets
          content:
            application/json:
              schema:
                type: array
                items:
                  $ref: '#/components/schemas/Pet'
        5XX:
          description: Server trouble
        default:
          description: Unexpected error
components:
  schemas:
    Pet:
      type: object
      properties:
        id:
          type: integer
        name:
          type: string
";

const PARAMETER_OVERRIDE: &str = "
openapi: 3.0.0
info:
  title: Override API
  version: '2.0'
paths:
  /items/{itemId}:
    parameters:
      - name: itemId
        in: path
        required: true
        description: Path level item ID
        schema:
          type: string
      - name: version
        in: query
        required: false
        description: Optional version
        schema:
          type: string
    get:
      summary: Get item
      responses:
        '200':
          description: OK
    put:
      summary: Update item
      parameters:
        - name: itemId
          in: path
          required: true
          description: Operation level item ID (overridden)
          schema:
            type: integer
      responses:
        '200':
          description: OK
    delete:
      summary: Delete item
      parameters:
        - name: version
          in: query
          required: true
          description: Required version for delete
          schema:
            type: string
      responses:
        '204':
          description: Gone
";

const REF_TEST: &str = "
openapi: 3.0.0
info:
  title: Reference API
  version: '1'
paths:
  /users:
    post:
      summary: Create user
      parameters:
        - $ref: '#/components/parameters/Trace'
        - $ref: '#/components/parameters/Missing'
      requestBody:
        $ref: '#/components/requestBodies/UserBody'
      responses:
        '201':
          $ref: '#/components/responses/Created'
        '400':
          $ref: '#/components/responses/BadRequest'
        '409':
          $ref: '#/components/responses/DoesNotExist'
        '500':
          $ref: '#/components/responses/Alias'
  /users/{id}:
    get:
      summary: Get user
      responses:
        '200':
          description: A user
        default:
          $ref: '#/components/responses/Unexpected'
  /elsewhere:
    $ref: '#/components/pathItems/Elsewhere'
components:
  parameters:
    Trace:
      name: X-Trace
      in: header
      required: false
      schema:
        type: string
  requestBodies:
    UserBody:
      description: User data to create
      required: true
      content:
        application/json:
          schema:
            $ref: '#/components/schemas/User'
  responses:
    Created:
      description: User created successfully
    BadRequest:
      description: Invalid request
    Unexpected:
      description: Unexpected error
    Alias:
      $ref: '#/components/responses/Created'
  schemas:
    User:
      type: object
";

fn reference_from<T, U>(r: openapiv3::ReferenceOr<T>, item_from: fn(T) -> U) -> ReferenceOr<U> {
    match r {
        openapiv3::ReferenceOr::Reference { reference } => ReferenceOr::Reference(reference),
        openapiv3::ReferenceOr::Item(item) => ReferenceOr::Item(item_from(item)),
    }
}

fn schema_from(schema: openapiv3::Schema) -> SchemaDecl {
    match schema.schema_kind {
        openapiv3::SchemaKind::Type(openapiv3::Type::String(_)) => {
            SchemaDecl::Typed(Primitive::String)
        }
        openapiv3::SchemaKind::Type(openapiv3::Type::Number(_)) => {
            SchemaDecl::Typed(Primitive::Number)
        }
        openapiv3::SchemaKind::Type(openapiv3::Type::Integer(_)) => {
            SchemaDecl::Typed(Primitive::Integer)
        }
        openapiv3::SchemaKind::Type(openapiv3::Type::Boolean(_)) => {
            SchemaDecl::Typed(Primitive::Boolean)
        }
        openapiv3::SchemaKind::Type(openapiv3::Type::Array(_)) => {
            SchemaDecl::Typed(Primitive::Array)
        }
        openapiv3::SchemaKind::Type(openapiv3::Type::Object(_)) => {
            SchemaDecl::Typed(Primitive::Object)
        }
        openapiv3::SchemaKind::Any(any) => SchemaDecl::Untyped(any.typ),
        _ => SchemaDecl::Composite,
    }
}

fn content_from(content: openapiv3::Content) -> Vec<MediaDecl> {
    content
        .into_iter()
        .map(|(content_type, media)| MediaDecl {
            content_type,
            schema: media.schema.map(|s| reference_from(s, schema_from)),
        })
        .collect()
}

fn parameter_from(parameter: openapiv3::Parameter) -> ParameterDecl {
    let (location, data) = match parameter {
        openapiv3::Parameter::Path { parameter_data, .. } => {
            (ParameterLocation::Path, parameter_data)
        }
        openapiv3::Parameter::Query { parameter_data, .. } => {
            (ParameterLocation::Query, parameter_data)
        }
        openapiv3::Parameter::Header { parameter_data, .. } => {
            (ParameterLocation::Header, parameter_data)
        }
        openapiv3::Parameter::Cookie { parameter_data, .. } => {
            (ParameterLocation::Cookie, parameter_data)
        }
    };
    ParameterDecl {
        location,
        name: data.name,
        description: data.description,
        required: data.required,
        schema: match data.format {
            openapiv3::ParameterSchemaOrContent::Schema(schema) => {
                Some(reference_from(schema, schema_from))
            }
            openapiv3::ParameterSchemaOrContent::Content(_) => None,
        },
    }
}

fn request_body_from(body: openapiv3::RequestBody) -> RequestBodyDecl {
    RequestBodyDecl {
        description: body.description,
        required: body.required,
        content: content_from(body.content),
    }
}

fn response_from(response: openapiv3::Response) -> ResponseDecl {
    ResponseDecl { description: response.description, content: content_from(response.content) }
}

fn operation_from(op: openapiv3::Operation) -> OperationDecl {
    OperationDecl {
        summary: op.summary,
        description: op.description,
        operation_id: op.operation_id,
        tags: op.tags,
        parameters: op.parameters.into_iter().map(|p| reference_from(p, parameter_from)).collect(),
        request_body: op.request_body.map(|b| reference_from(b, request_body_from)),
        responses: op
            .responses
            .responses
            .into_iter()
            .map(|(status, response)| StatusDecl {
                status: match status {
                    openapiv3::StatusCode::Code(code) => StatusKey::Code(code),
                    openapiv3::StatusCode::Range(digit) => StatusKey::Range(digit),
                },
                response: reference_from(response, response_from),
            })
            .collect(),
        default_response: op.responses.default.map(|r| reference_from(r, response_from)),
    }
}

fn path_item_from(item: openapiv3::PathItem) -> PathItemDecl {
    PathItemDecl {
        parameters: item
            .parameters
            .into_iter()
            .map(|p| reference_from(p, parameter_from))
            .collect(),
        get: item.get.map(operation_from),
        post: item.post.map(operation_from),
        put: item.put.map(operation_from),
        delete: item.delete.map(operation_from),
        patch: item.patch.map(operation_from),
        head: item.head.map(operation_from),
        options: item.options.map(operation_from),
        trace: item.trace.map(operation_from),
    }
}

fn document_from(api: openapiv3::OpenAPI) -> Document {
    Document {
        title: api.info.title,
        version: api.info.version,
        description: api.info.description,
        paths: api
            .paths
            .paths
            .into_iter()
            .map(|(path, item)| PathDecl { path, item: reference_from(item, path_item_from) })
            .collect(),
        components: api.components.map(|c| Components {
            parameters: c
                .parameters
                .into_iter()
                .map(|(name, entry)| Named { name, entry: reference_from(entry, parameter_from) })
                .collect(),
            request_bodies: c
                .request_bodies
                .into_iter()
                .map(|(name, entry)| Named {
                    name,
                    entry: reference_from(entry, request_body_from),
                })
                .collect(),
            responses: c
                .responses
                .into_iter()
                .map(|(name, entry)| Named { name, entry: reference_from(entry, response_from) })
                .collect(),
        }),
    }
}

fn read(parser: Parser, content: &str) -> Result<Document, String> {
    let api: Result<openapiv3::OpenAPI, String> = match parser {
        Parser::Json => serde_json::from_str(content).map_err(|e| e.to_string()),
        Parser::Yaml => serde_yaml::from_str(content).map_err(|e| e.to_string()),
    };
    api.map(document_from)
}

fn read_text(content: &str, format: Format) -> Result<Document, ParseError> {
    let mut reading = begin(format);
    loop {
        reading = match reading {
            Reading::Ask { parser, refusals } => proceed(format, refusals, read(parser, content)),
            Reading::Read(document) => return Ok(document),
            Reading::Failed(error) => return Err(error),
        };
    }
}

fn parse_text(content: &str, extension: &str) -> Result<ApiSpec, ParseError> {
    let document = read_text(content, format_of_extension(extension))?;
    Ok(convert_openapi(&document))
}

#[test]
fn test_parse_yaml_file() {
    let spec = parse_text(PETSTORE, "yaml").unwrap();

    assert_eq!(spec.title, "Petstore API");
    assert_eq!(spec.version, "1.0.0");
    assert_eq!(spec.description, Some("A sample API for testing oatui".to_string()));
}

#[test]
fn test_endpoint_count() {
    let spec = parse_text(PETSTORE, "yaml").unwrap();

    assert_eq!(spec.endpoints.len(), 5);
}

#[test]
fn test_endpoint_methods() {
    let spec = parse_text(PETSTORE, "yaml").unwrap();

    let methods: Vec<_> = spec.endpoints.iter().map(|e| e.method.clone()).collect();

    assert!(methods.contains(&HttpMethod::Get));
    assert!(methods.contains(&HttpMethod::Post));
    assert!(methods.contains(&HttpMethod::Put));
    assert!(methods.contains(&HttpMethod::Delete));
}

#[test]
fn test_endpoint_paths() {
    let spec = parse_text(PETSTORE, "yaml").unwrap();

    let paths: Vec<_> = spec.endpoints.iter().map(|e| e.path.as_str()).collect();

    assert!(paths.contains(&"/pets"));
    assert!(paths.contains(&"/pets/{petId}"));
}

#[test]
fn test_endpoint_sorting() {
    let spec = parse_text(PETSTORE, "yaml").unwrap();

    assert_eq!(spec.endpoints[0].path, "/pets");
    assert_eq!(spec.endpoints[0].method, HttpMethod::Get);
    assert_eq!(spec.endpoints[1].path, "/pets");
    assert_eq!(spec.endpoints[1].method, HttpMethod::Post);
}

#[test]
fn test_endpoint_summary() {
    let spec = parse_text(PETSTORE, "yaml").unwrap();

    let list_pets = spec
        .endpoints
        .iter()
        .find(|e| e.path == "/pets" && e.method == HttpMethod::Get)
        .unwrap();

    assert_eq!(list_pets.summary, Some("List all pets".to_string()));
}

#[test]
fn test_endpoint_parameters() {
    let spec = parse_text(PETSTORE, "yaml").unwrap();

    let list_pets = spec
        .endpoints
        .iter()
        .find(|e| e.path == "/pets" && e.method == HttpMethod::Get)
        .unwrap();

    assert_eq!(list_pets.parameters.len(), 1);
    assert_eq!(list_pets.parameters[0].name, "limit");
    assert_eq!(list_pets.parameters[0].location, ParameterLocation::Query);
}

#[test]
fn test_path_parameters() {
    let spec = parse_text(PETSTORE, "yaml").unwrap();

    let get_pet = spec
        .endpoints
        .iter()
        .find(|e| e.path == "/pets/{petId}" && e.method == HttpMethod::Get)
        .unwrap();

    let pet_id_param = get_pet.parameters.iter().find(|p| p.name == "petId").unwrap();

    assert_eq!(pet_id_param.location, ParameterLocation::Path);
    assert!(pet_id_param.required);
}

#[test]
fn test_request_body() {
    let spec = parse_text(PETSTORE, "yaml").unwrap();

    let create_pet = spec
        .endpoints
        .iter()
        .find(|e| e.path == "/pets" && e.method == HttpMethod::Post)
        .unwrap();

    assert!(create_pet.request_body.is_some());
    let body = create_pet.request_body.as_ref().unwrap();
    assert!(body.required);
    assert!(body.content_types.contains(&"application/json".to_string()));
}

#[test]
fn test_responses() {
    let spec = parse_text(PETSTORE, "yaml").unwrap();

    let get_pet = spec
        .endpoints
        .iter()
        .find(|e| e.path == "/pets/{petId}" && e.method == HttpMethod::Get)
        .unwrap();

    assert!(get_pet.responses.contains_key("200"));
    assert!(get_pet.responses.contains_key("404"));
}

#[test]
fn test_parameter_override_uses_path_level_by_default() {
    let spec = parse_text(PARAMETER_OVERRIDE, "yaml").unwrap();

    let get_item = spec
        .endpoints
        .iter()
        .find(|e| e.path == "/items/{itemId}" && e.method == HttpMethod::Get)
        .unwrap();

    assert_eq!(get_item.parameters.len(), 2);

    let item_id = get_item.parameters.iter().find(|p| p.name == "itemId").unwrap();
    assert_eq!(item_id.description, Some("Path level item ID".to_string()));
    assert_eq!(item_id.schema_type, Some("string".to_string()));
}

#[test]
fn test_parameter_override_operation_overrides_path() {
    let spec = parse_text(PARAMETER_OVERRIDE, "yaml").unwrap();

    let put_item = spec
        .endpoints
        .iter()
        .find(|e| e.path == "/items/{itemId}" && e.method == HttpMethod::Put)
        .unwrap();

    assert_eq!(put_item.parameters.len(), 2);

    let item_id = put_item.parameters.iter().find(|p| p.name == "itemId").unwrap();
    assert_eq!(item_id.description, Some("Operation level item ID (overridden)".to_string()));
    assert_eq!(item_id.schema_type, Some("integer".to_string()));
}

#[test]
fn test_parameter_override_can_change_required() {
    let spec = parse_text(PARAMETER_OVERRIDE, "yaml").unwrap();

    let delete_item = spec
        .endpoints
        .iter()
        .find(|e| e.path == "/items/{itemId}" && e.method == HttpMethod::Delete)
        .unwrap();

    let version = delete_item.parameters.iter().find(|p| p.name == "version").unwrap();
    assert!(version.required);
    assert_eq!(version.description, Some("Required version for delete".to_string()));
}

#[test]
fn test_resolve_request_body_ref() {
    let spec = parse_text(REF_TEST, "yaml").unwrap();

    let create_user = spec
        .endpoints
        .iter()
        .find(|e| e.path == "/users" && e.method == HttpMethod::Post)
        .unwrap();

    assert!(create_user.request_body.is_some());
    let body = create_user.request_body.as_ref().unwrap();
    assert!(body.required);
    assert_eq!(body.description, Some("User data to create".to_string()));
    assert!(body.content_types.contains(&"application/json".to_string()));
}

#[test]
fn test_resolve_response_ref() {
    let spec = parse_text(REF_TEST, "yaml").unwrap();

    let create_user = spec
        .endpoints
        .iter()
        .find(|e| e.path == "/users" && e.method == HttpMethod::Post)
        .unwrap();

    assert!(create_user.responses.contains_key("201"));
    let resp_201 = create_user.responses.get("201").unwrap();
    assert_eq!(resp_201.description, "User created successfully");

    assert!(create_user.responses.contains_key("400"));
    let resp_400 = create_user.responses.get("400").unwrap();
    assert_eq!(resp_400.description, "Invalid request");
}

#[test]
fn test_resolve_default_response_ref() {
    let spec = parse_text(REF_TEST, "yaml").unwrap();

    let get_user = spec
        .endpoints
        .iter()
        .find(|e| e.path == "/users/{id}" && e.method == HttpMethod::Get)
        .unwrap();

    assert!(get_user.responses.contains_key("default"));
    let default_resp = get_user.responses.get("default").unwrap();
    assert_eq!(default_resp.description, "Unexpected error");
}

#[test]
fn endpoints_come_out_in_path_then_verb_order() {
    let spec = parse_text(PETSTORE, "yaml").unwrap();
    let order: Vec<(String, HttpMethod)> =
        spec.endpoints.iter().map(|e| (e.path.clone(), e.method)).collect();
    assert_eq!(
        order,
        vec![
            ("/pets".to_string(), HttpMethod::Get),
            ("/pets".to_string(), HttpMethod::Post),
            ("/pets/{petId}".to_string(), HttpMethod::Get),
            ("/pets/{petId}".to_string(), HttpMethod::Put),
            ("/pets/{petId}".to_string(), HttpMethod::Delete),
        ]
    );
}

#[test]
fn broken_references_are_dropped_without_failing() {
    let spec = parse_text(REF_TEST, "yaml").unwrap();
    assert_eq!(spec.endpoints.len(), 2);

    let create_user = &spec.endpoints[0];
    assert_eq!(create_user.path, "/users");
    let labels: Vec<&str> =
        create_user.responses.entries().iter().map(|e| e.0.as_str()).collect();
    assert_eq!(labels, vec!["201", "400"]);
    assert!(!create_user.responses.contains_key("409"));
    assert!(!create_user.responses.contains_key("500"));

    assert_eq!(create_user.parameters.len(), 1);
    assert_eq!(create_user.parameters[0].name, "X-Trace");
    assert_eq!(create_user.parameters[0].location, ParameterLocation::Header);
    assert_eq!(create_user.request_body.as_ref().unwrap().schema, Some("User".to_string()));
}

#[test]
fn status_labels_and_first_content_entry() {
    let spec = parse_text(PETSTORE, "yaml").unwrap();
    let list_pets = &spec.endpoints[0];
    let labels: Vec<&str> = list_pets.responses.entries().iter().map(|e| e.0.as_str()).collect();
    assert_eq!(labels, vec!["200", "5XX", "default"]);
    assert_eq!(list_pets.responses.get("200").unwrap().schema, Some("array".to_string()));
    assert_eq!(list_pets.tags, vec!["pets".to_string()]);
    assert_eq!(list_pets.operation_id, Some("listPets".to_string()));

    let create_pet = &spec.endpoints[1];
    let body = create_pet.request_body.as_ref().unwrap();
    assert_eq!(
        body.content_types,
        vec!["application/json".to_string(), "application/xml".to_string()]
    );
    assert_eq!(body.schema, Some("Pet".to_string()));
}

fn operation() -> OperationDecl {
    OperationDecl {
        summary: None,
        description: None,
        operation_id: None,
        tags: vec![],
        parameters: vec![],
        request_body: None,
        responses: vec![],
        default_response: None,
    }
}

fn path_item() -> PathItemDecl {
    PathItemDecl {
        parameters: vec![],
        get: None,
        post: None,
        put: None,
        delete: None,
        patch: None,
        head: None,
        options: None,
        trace: None,
    }
}

fn parameter(
    name: &str,
    location: ParameterLocation,
    description: &str,
    required: bool,
    kind: Primitive,
) -> ReferenceOr<ParameterDecl> {
    ReferenceOr::Item(ParameterDecl {
        location,
        name: name.to_string(),
        description: Some(description.to_string()),
        required,
        schema: Some(ReferenceOr::Item(SchemaDecl::Typed(kind))),
    })
}

fn document(paths: Vec<PathDecl>, components: Option<Components>) -> Document {
    Document {
        title: "T".to_string(),
        version: "1".to_string(),
        description: None,
        paths,
        components,
    }
}

#[test]
fn operation_level_parameter_replaces_path_level_one() {
    let item = PathItemDecl {
        parameters: vec![
            parameter("A", ParameterLocation::Query, "from path", false, Primitive::String),
            parameter("B", ParameterLocation::Query, "kept", false, Primitive::Boolean),
            parameter("A", ParameterLocation::Header, "other place", false, Primitive::Number),
        ],
        get: Some(OperationDecl {
            parameters: vec![
                parameter("A", ParameterLocation::Query, "from operation", true, Primitive::Integer),
                parameter("C", ParameterLocation::Cookie, "new", false, Primitive::Array),
            ],
            ..operation()
        }),
        ..path_item()
    };
    let spec = convert_openapi(&document(
        vec![PathDecl { path: "/x".to_string(), item: ReferenceOr::Item(item) }],
        None,
    ));
    let parameters = &spec.endpoints[0].parameters;
    let keys: Vec<(&str, ParameterLocation)> =
        parameters.iter().map(|p| (p.name.as_str(), p.location)).collect();
    assert_eq!(
        keys,
        vec![
            ("A", ParameterLocation::Query),
            ("B", ParameterLocation::Query),
            ("A", ParameterLocation::Header),
            ("C", ParameterLocation::Cookie),
        ]
    );
    assert_eq!(parameters[0].description, Some("from operation".to_string()));
    assert!(parameters[0].required);
    assert_eq!(parameters[0].schema_type, Some("integer".to_string()));
    assert_eq!(parameters[1].description, Some("kept".to_string()));
    assert_eq!(parameters[2].schema_type, Some("number".to_string()));
}

#[test]
fn path_level_parameter_is_inherited() {
    let item = PathItemDecl {
        parameters: vec![parameter(
            "id",
            ParameterLocation::Path,
            "the id",
            true,
            Primitive::String,
        )],
        post: Some(operation()),
        ..path_item()
    };
    let spec = convert_openapi(&document(
        vec![PathDecl { path: "/x/{id}".to_string(), item: ReferenceOr::Item(item) }],
        None,
    ));
    assert_eq!(spec.endpoints.len(), 1);
    let parameters = &spec.endpoints[0].parameters;
    assert_eq!(parameters.len(), 1);
    assert_eq!(parameters[0].name, "id");
    assert_eq!(parameters[0].location, ParameterLocation::Path);
    assert_eq!(parameters[0].description, Some("the id".to_string()));
    assert!(parameters[0].required);
    assert_eq!(parameters[0].schema_type, Some("string".to_string()));
}

#[test]
fn unresolved_response_is_omitted() {
    let components = Components {
        parameters: vec![],
        request_bodies: vec![],
        responses: vec![Named {
            name: "Known".to_string(),
            entry: ReferenceOr::Item(ResponseDecl {
                description: "known".to_string(),
                content: vec![],
            }),
        }],
    };
    let item = PathItemDecl {
        get: Some(OperationDecl {
            responses: vec![
                StatusDecl {
                    status: StatusKey::Code(200),
                    response: ReferenceOr::Reference("#/components/responses/Known".to_string()),
                },
                StatusDecl {
                    status: StatusKey::Code(404),
                    response: ReferenceOr::Reference("#/components/responses/Nope".to_string()),
                },
                StatusDecl {
                    status: StatusKey::Range(4),
                    response: ReferenceOr::Reference("#/components/schemas/Known".to_string()),
                },
            ],
            default_response: Some(ReferenceOr::Reference(
                "#/components/responses/Nope".to_string(),
            )),
            ..operation()
        }),
        ..path_item()
    };
    let spec = convert_openapi(&document(
        vec![PathDecl { path: "/x".to_string(), item: ReferenceOr::Item(item) }],
        Some(components),
    ));
    assert_eq!(spec.endpoints.len(), 1);
    let responses = &spec.endpoints[0].responses;
    assert_eq!(responses.len(), 1);
    assert_eq!(responses.get("200").unwrap().description, "known");
    assert!(!responses.contains_key("404"));
    assert!(!responses.contains_key("4XX"));
    assert!(!responses.contains_key("default"));
}

#[test]
fn references_need_a_components_table() {
    let item = PathItemDecl {
        get: Some(OperationDecl {
            parameters: vec![ReferenceOr::Reference("#/components/parameters/P".to_string())],
            request_body: Some(ReferenceOr::Reference(
                "#/components/requestBodies/B".to_string(),
            )),
            ..operation()
        }),
        ..path_item()
    };
    let spec = convert_openapi(&document(
        vec![PathDecl { path: "/x".to_string(), item: ReferenceOr::Item(item) }],
        None,
    ));
    assert!(spec.endpoints[0].parameters.is_empty());
    assert!(spec.endpoints[0].request_body.is_none());
}

#[test]
fn one_record_for_each_declared_operation() {
    let full = PathItemDecl {
        get: Some(operation()),
        post: Some(operation()),
        put: Some(operation()),
        delete: Some(operation()),
        patch: Some(operation()),
        head: Some(operation()),
        options: Some(operation()),
        trace: Some(operation()),
        ..path_item()
    };
    let spec = convert_openapi(&document(
        vec![
            PathDecl { path: "/b".to_string(), item: ReferenceOr::Item(full) },
            PathDecl {
                path: "/c".to_string(),
                item: ReferenceOr::Reference("#/components/pathItems/C".to_string()),
            },
            PathDecl { path: "/empty".to_string(), item: ReferenceOr::Item(path_item()) },
            PathDecl {
                path: "/a".to_string(),
                item: ReferenceOr::Item(PathItemDecl { trace: Some(operation()), ..path_item() }),
            },
        ],
        None,
    ));
    let order: Vec<(&str, HttpMethod)> =
        spec.endpoints.iter().map(|e| (e.path.as_str(), e.method)).collect();
    assert_eq!(
        order,
        vec![
            ("/a", HttpMethod::Trace),
            ("/b", HttpMethod::Get),
            ("/b", HttpMethod::Post),
            ("/b", HttpMethod::Put),
            ("/b", HttpMethod::Patch),
            ("/b", HttpMethod::Delete),
            ("/b", HttpMethod::Head),
            ("/b", HttpMethod::Options),
            ("/b", HttpMethod::Trace),
        ]
    );
    assert_eq!(spec.title, "T");
    assert_eq!(spec.version, "1");
    assert_eq!(spec.description, None);
}

#[test]
fn sorting_keeps_the_order_of_equal_keys() {
    let spec = convert_openapi(&document(
        vec![
            PathDecl {
                path: "/same".to_string(),
                item: ReferenceOr::Item(PathItemDecl {
                    get: Some(OperationDecl { summary: Some("first".to_string()), ..operation() }),
                    ..path_item()
                }),
            },
            PathDecl {
                path: "/Zed".to_string(),
                item: ReferenceOr::Item(PathItemDecl { get: Some(operation()), ..path_item() }),
            },
            PathDecl {
                path: "/same".to_string(),
                item: ReferenceOr::Item(PathItemDecl {
                    get: Some(OperationDecl { summary: Some("second".to_string()), ..operation() }),
                    ..path_item()
                }),
            },
        ],
        None,
    ));
    let sorted = sort_endpoints(spec.endpoints);
    let order: Vec<(&str, Option<&str>)> =
        sorted.iter().map(|e| (e.path.as_str(), e.summary.as_deref())).collect();
    assert_eq!(
        order,
        vec![("/Zed", None), ("/same", Some("first")), ("/same", Some("second"))]
    );
}

#[test]
fn paths_are_ordered_by_their_characters() {
    let get = || ReferenceOr::Item(PathItemDecl { get: Some(operation()), ..path_item() });
    let paths = ["/\u{10000}", "/z", "/\u{ffff}", "/a/b", "/\u{e9}", "/a", "/B", "/", "/a!"];
    let spec = convert_openapi(&document(
        paths.iter().map(|p| PathDecl { path: p.to_string(), item: get() }).collect(),
        None,
    ));
    let order: Vec<&str> = spec.endpoints.iter().map(|e| e.path.as_str()).collect();
    assert_eq!(
        order,
        vec!["/", "/B", "/a", "/a!", "/a/b", "/z", "/\u{e9}", "/\u{ffff}", "/\u{10000}"]
    );
}

#[test]
fn verb_priority() {
    assert_eq!(method_order(&HttpMethod::Get), 0);
    assert_eq!(method_order(&HttpMethod::Post), 1);
    assert_eq!(method_order(&HttpMethod::Put), 2);
    assert_eq!(method_order(&HttpMethod::Patch), 3);
    assert_eq!(method_order(&HttpMethod::Delete), 4);
    assert_eq!(method_order(&HttpMethod::Head), 5);
    assert_eq!(method_order(&HttpMethod::Options), 6);
    assert_eq!(method_order(&HttpMethod::Trace), 7);
}

#[test]
fn schema_labels() {
    let label = |s: ReferenceOr<SchemaDecl>| schema_type_to_string(&s);
    assert_eq!(
        label(ReferenceOr::Reference("#/components/schemas/Pet".to_string())),
        Some("Pet".to_string())
    );
    assert_eq!(label(ReferenceOr::Reference("#/components/responses/Pet".to_string())), None);
    assert_eq!(label(ReferenceOr::Reference("#/components/schemas/".to_string())), Some(String::new()));
    assert_eq!(label(ReferenceOr::Item(SchemaDecl::Typed(Primitive::String))), Some("string".to_string()));
    assert_eq!(label(ReferenceOr::Item(SchemaDecl::Typed(Primitive::Number))), Some("number".to_string()));
    assert_eq!(label(ReferenceOr::Item(SchemaDecl::Typed(Primitive::Integer))), Some("integer".to_string()));
    assert_eq!(label(ReferenceOr::Item(SchemaDecl::Typed(Primitive::Boolean))), Some("boolean".to_string()));
    assert_eq!(label(ReferenceOr::Item(SchemaDecl::Typed(Primitive::Array))), Some("array".to_string()));
    assert_eq!(label(ReferenceOr::Item(SchemaDecl::Typed(Primitive::Object))), Some("object".to_string()));
    assert_eq!(
        label(ReferenceOr::Item(SchemaDecl::Untyped(Some("file".to_string())))),
        Some("file".to_string())
    );
    assert_eq!(label(ReferenceOr::Item(SchemaDecl::Untyped(None))), None);
    assert_eq!(label(ReferenceOr::Item(SchemaDecl::Composite)), None);
}

#[test]
fn status_codes_are_written_in_decimal() {
    let response = |description: &str| {
        ReferenceOr::Item(ResponseDecl { description: description.to_string(), content: vec![] })
    };
    let item = PathItemDecl {
        get: Some(OperationDecl {
            responses: vec![
                StatusDecl { status: StatusKey::Code(404), response: response("a") },
                StatusDecl { status: StatusKey::Code(65535), response: response("b") },
                StatusDecl { status: StatusKey::Code(0), response: response("c") },
                StatusDecl { status: StatusKey::Range(5), response: response("d") },
                StatusDecl { status: StatusKey::Code(404), response: response("e") },
            ],
            default_response: Some(response("f")),
            ..operation()
        }),
        ..path_item()
    };
    let spec = convert_openapi(&document(
        vec![PathDecl { path: "/x".to_string(), item: ReferenceOr::Item(item) }],
        None,
    ));
    let entries: Vec<(&str, &str)> = spec.endpoints[0]
        .responses
        .entries()
        .iter()
        .map(|e| (e.0.as_str(), e.1.description.as_str()))
        .collect();
    assert_eq!(
        entries,
        vec![("0", "c"), ("404", "e"), ("5XX", "d"), ("65535", "b"), ("default", "f")]
    );
}

#[test]
fn extension_chooses_the_format() {
    assert_eq!(format_of_extension("json"), Format::Json);
    assert_eq!(format_of_extension("JSON"), Format::Json);
    assert_eq!(format_of_extension("yaml"), Format::Yaml);
    assert_eq!(format_of_extension("Yml"), Format::Yaml);
    assert_eq!(format_of_extension("txt"), Format::Unknown);
    assert_eq!(format_of_extension(""), Format::Unknown);

    assert_eq!(format_of_lowered("json"), Format::Json);
    assert_eq!(format_of_lowered("yaml"), Format::Yaml);
    assert_eq!(format_of_lowered("yml"), Format::Yaml);
    assert_eq!(format_of_lowered("JSON"), Format::Unknown);
    assert_eq!(format_of_lowered("jsonl"), Format::Unknown);
}

#[test]
fn parsers_are_asked_in_a_fixed_order() {
    assert_eq!(parsers_for(Format::Json), vec![Parser::Json]);
    assert_eq!(parsers_for(Format::Yaml), vec![Parser::Yaml]);
    assert_eq!(parsers_for(Format::Unknown), vec![Parser::Json, Parser::Yaml]);
}

fn small_document(title: &str) -> Document {
    Document {
        title: title.to_string(),
        version: "1".to_string(),
        description: None,
        paths: vec![],
        components: None,
    }
}

#[test]
fn a_reading_in_a_known_format_asks_one_parser() {
    match begin(Format::Json) {
        Reading::Ask { parser, refusals } => {
            assert_eq!(parser, Parser::Json);
            assert!(refusals.is_empty());
        }
        other => panic!("unexpected start: {:?}", other),
    }
    match begin(Format::Yaml) {
        Reading::Ask { parser, refusals } => {
            assert_eq!(parser, Parser::Yaml);
            assert!(refusals.is_empty());
        }
        other => panic!("unexpected start: {:?}", other),
    }
    match proceed(Format::Json, vec![], Ok(small_document("j"))) {
        Reading::Read(document) => assert_eq!(document.title, "j"),
        other => panic!("unexpected step: {:?}", other),
    }
    match proceed(Format::Json, vec![], Err("no json".to_string())) {
        Reading::Failed(ParseError::Json(cause)) => assert_eq!(cause, "no json"),
        other => panic!("unexpected step: {:?}", other),
    }
    match proceed(Format::Yaml, vec![], Err("no yaml".to_string())) {
        Reading::Failed(ParseError::Yaml(cause)) => assert_eq!(cause, "no yaml"),
        other => panic!("unexpected step: {:?}", other),
    }
}

#[test]
fn a_reading_in_an_unknown_format_asks_json_and_then_yaml() {
    match begin(Format::Unknown) {
        Reading::Ask { parser, refusals } => {
            assert_eq!(parser, Parser::Json);
            assert!(refusals.is_empty());
        }
        other => panic!("unexpected start: {:?}", other),
    }
    match proceed(Format::Unknown, vec![], Ok(small_document("from json"))) {
        Reading::Read(document) => assert_eq!(document.title, "from json"),
        other => panic!("unexpected step: {:?}", other),
    }
    let refusals = match proceed(Format::Unknown, vec![], Err("no json".to_string())) {
        Reading::Ask { parser, refusals } => {
            assert_eq!(parser, Parser::Yaml);
            assert_eq!(refusals, vec!["no json".to_string()]);
            refusals
        }
        other => panic!("unexpected step: {:?}", other),
    };
    match proceed(Format::Unknown, refusals.clone(), Ok(small_document("from yaml"))) {
        Reading::Read(document) => assert_eq!(document.title, "from yaml"),
        other => panic!("unexpected step: {:?}", other),
    }
    match proceed(Format::Unknown, refusals, Err("no yaml".to_string())) {
        Reading::Failed(ParseError::Unrecognized { json, yaml }) => {
            assert_eq!(json, "no json");
            assert_eq!(yaml, "no yaml");
        }
        other => panic!("unexpected step: {:?}", other),
    }
}

#[test]
fn a_refusal_names_the_stage() {
    let broken = "{ this is : [ neither";
    match read_text(broken, Format::Json) {
        Err(ParseError::Json(cause)) => {
            let expected = serde_json::from_str::<openapiv3::OpenAPI>(broken).unwrap_err();
            assert_eq!(cause, expected.to_string());
        }
        other => panic!("unexpected outcome: {:?}", other.map(|_| ())),
    }
    match read_text(broken, Format::Yaml) {
        Err(ParseError::Yaml(cause)) => {
            let expected = serde_yaml::from_str::<openapiv3::OpenAPI>(broken).unwrap_err();
            assert_eq!(cause, expected.to_string());
        }
        other => panic!("unexpected outcome: {:?}", other.map(|_| ())),
    }
    match parse_text(broken, "txt") {
        Err(error) => {
            let message = error.to_string();
            assert!(message.starts_with("Failed to parse file as JSON or YAML: "));
            match error {
                ParseError::Unrecognized { json, yaml } => {
                    assert!(!json.is_empty());
                    assert!(!yaml.is_empty());
                    assert_eq!(
                        message,
                        format!("Failed to parse file as JSON or YAML: {}; {}", json, yaml)
                    );
                }
                other => panic!("unexpected error: {:?}", other),
            }
        }
        Ok(_) => panic!("the text is no description"),
    }
    let yaml_only = parse_text(PETSTORE, "json").unwrap_err();
    assert!(yaml_only.to_string().starts_with("Failed to parse JSON: "));
    let not_a_document = parse_text("[1, 2]", "yml").unwrap_err();
    assert!(not_a_document.to_string().starts_with("Failed to parse YAML: "));
}

#[test]
fn both_formats_are_tried_for_an_unknown_extension() {
    let json = "{\"openapi\": \"3.0.0\", \"info\": {\"title\": \"J\", \"version\": \"9\"}, \
                \"paths\": {\"/j\": {\"get\": {\"responses\": {\"200\": {\"description\": \"ok\"}}}}}}";
    let spec = parse_text(json, "").unwrap();
    assert_eq!(spec.title, "J");
    assert_eq!(spec.endpoints.len(), 1);
    assert_eq!(spec.endpoints[0].responses.get("200").unwrap().description, "ok");

    let spec = parse_text(json, "json").unwrap();
    assert_eq!(spec.version, "9");

    let spec = parse_text(PETSTORE, "conf").unwrap();
    assert_eq!(spec.title, "Petstore API");
    assert_eq!(spec.endpoints.len(), 5);
}

#[test]
fn error_messages_name_the_stage_and_the_cause() {
    assert_eq!(ParseError::Json("a".to_string()).to_string(), "Failed to parse JSON: a");
    assert_eq!(ParseError::Yaml("b".to_string()).to_string(), "Failed to parse YAML: b");
    assert_eq!(
        ParseError::Unrecognized { json: "a".to_string(), yaml: "b".to_string() }.to_string(),
        "Failed to parse file as JSON or YAML: a; b"
    );
}

fn named<T>(name: &str, entry: ReferenceOr<T>) -> Named<T> {
    Named { name: name.to_string(), entry }
}

fn reference<T>(text: &str) -> ReferenceOr<T> {
    ReferenceOr::Reference(text.to_string())
}

#[test]
fn references_are_resolved_in_a_single_hop() {
    let table = vec![
        named("a", ReferenceOr::Item(1)),
        named("b", reference("#/x/a")),
        named("a", ReferenceOr::Item(2)),
        named("", ReferenceOr::Item(3)),
    ];
    assert!(matches!(find_component(&table, "a"), Some(ReferenceOr::Item(1))));
    assert!(matches!(find_component(&table, "b"), Some(ReferenceOr::Reference(_))));
    assert!(find_component(&table, "c").is_none());
    assert!(find_component(&table, "A").is_none());

    let inline = ReferenceOr::Item(9);
    assert_eq!(resolve_ref(&inline, "#/x/", Some(&table)), Some(&9));
    assert_eq!(resolve_ref(&inline, "#/x/", None), Some(&9));
    assert_eq!(resolve_ref(&reference("#/x/a"), "#/x/", Some(&table)), Some(&1));
    assert_eq!(resolve_ref(&reference("#/x/"), "#/x/", Some(&table)), Some(&3));
    assert_eq!(resolve_ref(&reference("#/x/b"), "#/x/", Some(&table)), None);
    assert_eq!(resolve_ref(&reference("#/x/c"), "#/x/", Some(&table)), None);
    assert_eq!(resolve_ref(&reference("#/y/a"), "#/x/", Some(&table)), None);
    assert_eq!(resolve_ref(&reference("a"), "#/x/", Some(&table)), None);
    assert_eq!(resolve_ref(&reference::<i32>("#/x/a"), "#/x/", None), None);
}

#[test]
fn each_kind_of_component_has_its_own_prefix() {
    let parameter = ParameterDecl {
        location: ParameterLocation::Header,
        name: "P".to_string(),
        description: None,
        required: false,
        schema: None,
    };
    let components = Some(Components {
        parameters: vec![named("same", ReferenceOr::Item(parameter))],
        request_bodies: vec![named(
            "same",
            ReferenceOr::Item(RequestBodyDecl {
                description: Some("body".to_string()),
                required: false,
                content: vec![],
            }),
        )],
        responses: vec![named(
            "same",
            ReferenceOr::Item(ResponseDecl { description: "response".to_string(), content: vec![] }),
        )],
    });
    let p = reference("#/components/parameters/same");
    assert_eq!(resolve_parameter(&p, &components).unwrap().name, "P");
    assert!(resolve_parameter(&reference("#/components/responses/same"), &components).is_none());
    assert!(resolve_parameter(&p, &None).is_none());

    let b = reference("#/components/requestBodies/same");
    assert_eq!(
        resolve_request_body(&b, &components).unwrap().description,
        Some("body".to_string())
    );
    assert!(
        resolve_request_body(&reference("#/components/parameters/same"), &components).is_none()
    );

    let r = reference("#/components/responses/same");
    assert_eq!(resolve_response(&r, &components).unwrap().description, "response");
    assert!(resolve_response(&reference("#/components/requestBodies/same"), &components).is_none());

    assert_eq!(type_to_string(&Primitive::Boolean), "boolean");
}

#[test]
fn a_clone_holds_what_the_model_holds() {
    let spec = parse_text(PETSTORE, "yaml").unwrap();
    let copy = spec.clone();
    assert_eq!(format!("{:?}", copy), format!("{:?}", spec));
    assert_eq!(copy.endpoints.len(), 5);
    assert_eq!(copy.endpoints[0].parameters[0].name, "limit");
    assert_eq!(copy.endpoints[1].request_body.as_ref().unwrap().content_types.len(), 2);
}
