//! The embedded word list: a sample of 3,116 common English words, one
//! bucket per length. It is not the full Wordnik list.
use vstd::prelude::*;

verus! {

/// Every word of 2 letters, in ascending order, without separators.
pub const LEN_2: &'static str = "abadahamanasatawaxbebydogohahehiifinisitmemynoofohokonoroxpasotoupusweyeyo";

/// Every word of 3 letters, in ascending order, without separators.
pub const LEN_3: &'static str = "aceactaddadoaftageagoaidailaimairaleallandantanyapeaptarcarearkarmartashaskateaweaxeayebadbagbat\
    bedbeebigbitboxboybudbugbusbutbuycabcancapcarcatcowcrycubcupcutdaddaydendewdiddigdogdotdryduedug\
    eareateggelkelmenderaeveeyefanfarfatfedfeefewfigfinfitfixflyfogforfoxfunfurgapgasgemgetgumgutguy\
    hadhamhashathenherhidhimhiphishithoghophothowhubhuehughumhuticeicyillinkinnionjamjarjawjetjobjog\
    joyjugkeykidkinkitlabladlaglaplawlayledlegletlidlieliplitloglotlowmadmanmapmatmaymenmetmixmobmom\
    mudmugnapnetnewnodnornotnownutoakoaroddoffoiloldoneorboreouroutowlownpadpalpanpawpaypeapenpetpie\
    pigpinpitpodpoppotpunpupputragramranratrawrayredribridrimriprobrodrotrowrubrugrunryesadsagsapsat\
    sawsayseaseesetsewsheshysipsirsitsixskiskyslysobsodsonsowsoyspaspysumsuntabtagtantaptartaxteaten\
    thetietintiptoetontootoptoytrytubtugtwournusevanvatvetviavowwagwarwaswaxwaywebwedwetwhowhywigwin\
    witwoewokwonwoowowyakyamyapyesyetyouzapzenzipzoo";

/// Every word of 4 letters, in ascending order, without separators.
pub const LEN_4: &'static str = "ableacidagedalsoareaarmyawaybabybackbakeballbandbankbarebarnbasebathbearbeatbeenbellbeltbendbest\
    birdbiteblowblueboatbodyboldbonebookbootbornbothbowlbulkburnbusycakecallcalmcamecampcardcarecart\
    casecashcastcellchatchipcityclayclubcoalcoatcodecoldcomecookcoolcopecopycorecorncostcrewcropdark\
    datadatedawndealdeardebtdeckdeepdeerdeskdialdicedietdirtdishdockdoesdonedoordosedowndrawdrewdrop\
    drumduckdustdutyeachearneaseeasteasyedgeelseeveneverexitfacefactfailfairfallfamefarmfastfatefear\
    feedfeelfeetfellfeltfilefillfilmfindfinefirefirmfishfiveflagflatflowfolkfoodfootformfortfourfree\
    frogfromfuelfullfundgaingamegategavegeargiftgirlgivegladgoalgoatgoldgolfgonegoodgrewgreygridgrow\
    gulfhairhalfhallhandhanghardharmhaveheadheatheldhelpherbhereherohighhillhinthireholdholeholyhome\
    hopehornhosthourhugehuntideainchintoironitemjazzjoinjokejumpjuryjustkeenkeepkeptkickkindkingkiss\
    kneeknewknotknowlacelackladylaidlakelamplandlanelastlatelawnleadleafleanleftlendlenslesslifelift\
    likelimelinelinklionlistliveloadloanlocklonglooklordloselosslostloudloveluckmademailmainmakemale\
    mallmanymarkmassmealmeanmeatmeetmeltmenumeremildmilkmillmindminemissmodemoodmoonmoremostmovemuch\
    mustnamenavynearneatneckneednewsnextniceninenonenosenotenounoathobeyonceonlyontoopenovenoverpace\
    packpagepaidpainpairpalmparkpartpasspastpathpeakpearpeerpickpilepinepinkpipeplanplayplotpluspoem\
    poetpolepollpondpoolpoorportposepostpourpullpurepushquitracerailrainrankrareratereadrealrearrely\
    rentrestricerichrideringriseriskroadrockroleroofroomrootroperoserulerushrustsafesaidsailsaltsame\
    sandsavesealseatseedseekseemseenselfsellsendsentshipshoeshopshotshowshutsicksidesignsilksingsink\
    sitesizeskinslipslowsnowsoapsoftsoilsoldsolesomesongsoonsortsoulsoupspotstarstaystepstopsuchsuit\
    sureswimtailtaketaletalktalltanktapetaskteamteartelltendtenttermtesttextthanthatthemthentheythin\
    thisthustidetiletilltimetinytiretoldtolltonetooltourtowntreetrimtriptruetubetuneturntwintypeunit\
    uponuseduservastveryviewvotewagewaitwakewalkwallwantwarmwashwaveweakwearweekwellwentwerewestwhat\
    whenwhomwidewifewildwillwindwinewingwirewisewishwithwolfwoodwoolwordworeworkwornwrapyardyarnyear\
    yellyourzerozonezoom";

/// Every word of 5 letters, in ascending order, without separators.
pub const LEN_5: &'static str = "aboutaboveactoradultafteragainagentagreeaheadalarmalbumalertalikealiveallowalonealongalteramonga\
    ngerangleangryapartappleapplyarenaarguearisearrayasideassetaudioavoidawardawarebadlybakerbasicbe\
    achbeginbeingbelowbenchbirthblackbladeblameblankblastblendblindblockbloodboardboostbrainbrandbre\
    adbreakbrickbriefbringbroadbrownbrushbuildbuiltbuyercabincablecandycargocarrycatchcausechainchai\
    rchalkcharmchartchasecheapcheckchesschestchiefchildchosecivilclaimclasscleanclearclerkclickclimb\
    clockclosecloudcoachcoastcolorcouchcountcourtcovercrackcraftcrashcreamcrimecrosscrowdcrowncurvec\
    ycledailydancedeathdelaydepthdirtydoubtdoughdozendraftdramadreamdressdrinkdriveearlyeartheightel\
    bowelderemptyenemyenjoyenterentryequalerroressayeventexactexistextrafaithfalsefancyfaultfeastfen\
    cefeverfieldfifthfiftyfightfinalfirstflameflashfleetfleshfloatfloodfloorflourfluidfocusforcefort\
    hfortyforumfoundframefreshfrontfrostfruitfunnyghostgiantgivenglassglobegloryglovegracegradegrain\
    grandgrantgrapegrassgravegreatgreengreetgroupguardguessguestguidehabithappyheartheavyhellohobbyh\
    oneyhorsehotelhousehumanhumoridealimageindexinnerinputissueivoryjeweljointjudgejuiceknifeknockla\
    bellaborlargelaserlaterlaughlayerlearnleaseleastleavelegallemonlevellightlimitlinenlocallogicloo\
    seloverlowerloyalluckylunchmagicmajormakermarchmatchmaybemayormedalmediametalmetermightminormode\
    lmoneymonthmoralmotormountmousemouthmoviemusicnervenevernightnoblenoisenorthnovelnurseoceanoffer\
    oftenoliveonionoperaorbitorderotherouterownerpaintpanelpaperpartypastapatchpausepeacepearlphasep\
    honephotopianopiecepilotpitchpizzaplaceplainplaneplantplatepointpoundpowerpresspriceprideprimepr\
    intpriorprizeproofproudprovequeenquickquietquiteradioraiserangerapidratioreachreadyrealmrebelref\
    errelaxreplyriderridgeriflerightrivalriverrobotroughroundrouteroyalruralsaladscalescenescopescor\
    esenseservesevenshadeshakeshapesharesharpsheepsheetshelfshellshiftshineshirtshockshoreshortshout\
    sightsillysinceskillskirtsleepsliceslidesmallsmartsmilesmokesnakesolidsolvesoundsouthspacespares\
    peakspeedspendspicespinespitesplitspoonsportstaffstagestairstakestandstartstatesteamsteelstickst\
    illstockstonestoolstorestormstorystovestripstuckstudystuffstylesugarsuitesunnysupersweetswingswo\
    rdtabletasteteachteeththankthemetherethickthiefthingthinkthirdthumbtigertighttitletoasttodaytoke\
    ntoothtopictotaltouchtoughtowertoxictracetracktradetrailtraintraittreattrendtrialtribetricktruck\
    trulytrusttruthtwiceuncleunderunionunityuntilupperupseturbanusageusualvalidvaluevideovirusvisitv\
    italvividvoicewastewatchwaterwheatwheelwherewhichwhilewhitewholewhosewomanworldworryworthwouldwo\
    undwritewrongyieldyoungyouthzebra";

/// Every word of 6 letters, in ascending order, without separators.
pub const LEN_6: &'static str = "absorbacceptaccessacrossactionactiveactualadviceadviseaffectaffordafraidagencyagendaalmostalways\
    amountanimalannualansweranyoneanywayappealappeararoundarriveartistaspectassessassistassumeattack\
    attendauthorautumnbarelybasketbattlebeautybecomebeforebehalfbehindbeliefbelongbesidebetterbeyond\
    bishopborderborrowbottlebottombouncebranchbreathbridgebrightbrokenbudgetbundleburdenbutterbutton\
    cameracancelcannotcarboncareercarpetcastlecasualcaughtcenterchancechangechargechoicechoosechurch\
    circleclientclosedclosercoffeecolumncombatcomedycomingcommoncookiecornercottoncountycouplecourse\
    cousincreatecreditcrisiscriticcruisecustomdamagedangerdealerdebatedecadedecidedefeatdefenddefine\
    degreedemanddependdeputydesertdesigndesiredetaildevicedinnerdirectdividedoctordollardomaindouble\
    dragondrawerdriverduringeasilyeatingeditoreffectefforteightheitherelevenemergeempireemployenable\
    endingenergyengageengineenoughensureentireequityescapeestateethnicevolveexceedexceptexcuseexpand\
    expectexpertexportexposeextendextentfabricfacingfactorfairlyfamilyfamousfarmerfatherfavourfellow\
    femalefigurefingerfinishfiscalflavorflightflowerflyingfollowforestforgetformalformatformerfoster\
    fourthfreelyfriendfrozenfuturegalaxygardengathergendergentlegiftedglobalgoldengroundgrowthguitar\
    handlehappenharborhardlyhealthheavenheighthiddenhighlyholderhonesthorrorhungerhunterignoreimpact\
    importincomeindeedinfantinforminjuryinsectinsideintendinvestislanditselfjacketjunglejuniorkidney\
    kittenladderlatelylaunchlawyerleaderleaguelessonletterlikelylinearliquidlistenlittlelivinglonely\
    lovelymainlymanagemannermarblemarginmarketmastermattermeadowmediummembermemorymentalmerelymethod\
    middleminutemirrormobilemodernmodestmomentmostlymothermotionmurdermuseummutualmyselfnarrownation\
    nativenaturenearbynearlyneedlenephewnobodynormalnoticenumberobjectobtainofficeorangeoriginoutput\
    oxygenpalaceparadeparentparishpartlypatentpatrolpencilpeoplepepperperiodpermitpersonphraseplanet\
    playerpleaseplentypocketpoetrypolicepolicypolishpotatopowderpreferprettypriestprinceprisonprofit\
    properpublicpurplepursuerabbitracingrandomrarelyratherratingreaderreallyreasonrecallrecentrecipe\
    recordreducereformrefuseregardregionrelatereliefremainremoteremoverepairrepeatreportrescueresort\
    resultretailretainreturnrevealreviewrewardrhythmribbonridingrisingrocketrubberrulingsaddlesafety\
    salarysalmonsamplesavingschemeschoolscreenscriptsearchseasonsecondsecretsectorsecureselectseller\
    seniorseriessettlesevereshadowshieldshouldshowersignalsilentsilversimplesingersinglesistersketch\
    slightsmoothsoccersocialsodiumsoftlysolelysourcespeechspherespiderspiritspreadspringsquarestable\
    statussteadystreamstreetstressstrictstrikestringstrokestrongstudiosubmitsuddensummersummitsupply\
    surelysurveyswitchsymbolsystemtalenttargettempletenanttendertennisthirtythreadthroattickettimber\
    tissuetomatotonguetowardtraveltreatytunneltwelveuniqueunlessunlikeupdateusefulvalleyvendorversus\
    vesselvictimviolinvisionvisualvolumewalnutwealthweaponweeklyweightwindowwinnerwinterwisdomwithin\
    wonderwoodenworkerwriteryellow";

/// Every word of 7 letters, in ascending order, without separators.
pub const LEN_7: &'static str = "abandonabilityabsenceacademyaccountachieveacquireaddressadvanceagainstairlineairportalcoholalrea\
    dyamazingancientanotheranxietyanybodyanymoreappliedarrangearticleattemptattractaveragebalanceban\
    kingbarrierbatterybearingbecausebedroombelievebeneathbenefitbetweenbicyclebillionbindingbiologyb\
    lanketbrothercabinetcalciumcapablecapitalcaptaincaptioncapturecarefulcarriercatalogceilingcentra\
    lcenturycertainchamberchannelchaptercharitychickenchroniccircuitcitizenclassicclimateclothesclus\
    tercollectcollegecombinecomfortcommandcommentcomparecompetecomplexconceptconcernconductconfirmco\
    nnectconsentconsistcontactcontaincontentcontestcontextcontrolconvertcorrectcouncilcountercountry\
    couragecrystalculturecuriouscurrentcushiondealingdeclinedefaultdefensedeficitdeliverdensitydepos\
    itdesktopdespitedestroydevelopdiamonddigitaldignitydilemmadiseasedisplaydistantdiversedolphindra\
    wingdynamiceasterneconomyeditionelderlyelementembraceemotionenhanceeveningevidentexactlyexaminee\
    xampleexcitedexcludeexhibitexpenseexplainexploreexpressextremefactoryfacultyfailurefashionfeatur\
    efederalfeelingfictionfifteenfighterfinallyfinancefishingfitnessforeignforeverformulafortuneforw\
    ardfreedomgallerygeneralgeneticgenuinegestureglimpsegravitygreatlygrocerygrowinghabitatharmonyha\
    rvesthealthyhearingheavilyhelpfulherselfhighwayhimselfhistoryholidayhorizonhostilehousinghowever\
    hundredhuntinghusbandillegalillnessimagineimpressimproveincludeinitialinquiryinsightinspireinsta\
    llinstantinsteadintenseinvolvejournaljourneyjusticejustifykitchenlandinglargelylastingleadinglea\
    rnerleatherlecturelegallyleisureliberallibrarylicenselightlylimitedmachinemanagermarriedmassivem\
    aximummeaningmeasuremedicalmeetingmentionmessagemillionmineralminimummiraclemissionmistakemixtur\
    emonitormorningmusicalmysterynaturalneithernervousnetworkneutralnotablenothingnowherenuclearnurs\
    ingobserveobviousoffenseofficerongoingopeningoperateopinionorganicoutcomeoutdooroutsideoverallpa\
    ckagepainfulpainterpartnerpassagepassionpatientpatternpaymentpenaltypensionpercentperfectperform\
    perhapspicturepioneerplasticpleasedpovertyprairiepredictpremiumpreparepresentpreventprimaryprint\
    erprivacyprivateproblemproceedprocessproduceproductprofileprogramprojectpromisepromoteproposepro\
    tectproteinprotestprovidepublishpurposequalifyquarterquicklyradicalrailwayreadilyrealityrealizer\
    eceiptreceiverecoverreflectregularrelatedreleaseremainsremovalreplacerequestrequirereserveresolv\
    erespectrespondrestoreretiredrevenuerollingromancerunningsatisfyscholarsciencesectionsegmentseri\
    ousservantservicesessionsettingseventhseveralsheltersheriffsilencesimilarsixteenskilledslaveryso\
    cietysoldiersomehowsomeonespeakerspecialsponsorstationstoragestrangestretchstudentsubjectsucceed\
    successsuggestsummarysupportsupposesupremesurfacesurgerysurplussurvivesuspectsustainteachertensi\
    ontheatretherapytherebythirstythoughtthroughtobaccotonighttotallytourismtouristtowardstraffictra\
    gedytroubletypicaluniformunknownunusualusuallyutilityvarietyvariousvehicleventureversionveteranv\
    ictoryvillageviolentvirtualvisiblevisitorvoltagewaitingwalkingwarningwealthyweatherwebpageweddin\
    gweekendwelcomewelfarewesternwhisperwhoeverwillingwithoutwitnessworriedwriting";

/// Every word of 8 letters, in ascending order, without separators.
pub const LEN_8: &'static str = "absoluteabstractacademicaccidentaccuracyaccurateactivityactuallyadditionadequateadjacentadvanced\
    advocateaircraftalliancealthoughaluminumanalysisannounceanythinganywhereapparentapproachapproval\
    argumentartisticassemblyathleticattitudeaudienceautonomybachelorbackwardbaseballbathroombehavior\
    birthdayboundarybuildingbusinesscalendarcampaigncapacitycategorycautiousceremonychemicalchildren\
    clinicalcompletecomputerconcreteconflictconsumercontractcreativecriminalcriticalcurrencycustomer\
    databasedaughterdeadlinedecisiondelicatedeliverydesignerdetaileddiabetesdialoguedirectordisaster\
    discountdiscoverdisorderdistancedomesticdominantdramaticdurationeconomicelectionelectricelephant\
    elevatoremphasisemployeeengineerenormousentranceenvelopeequationestimateevaluateeveryoneevidence\
    exchangeexerciseexistingexpectedexplicitexposureexternalfacilityfamiliarfavoritefestivalfootball\
    frequentfriendlyfrontierfunctiongenerategenerousgraduateguidancehardwareheritagehistorichomeless\
    hospitalidentifyidentityincidentincreaseindicateindustryinfiniteinformalinnocentinstanceintegral\
    interestinternalintervalinvasioninvestorjudgmentkeyboardlanguagelaughterlearninglikewiseliterary\
    locationmagazinemaintainmajoritymarriagematerialmedicinememorialmerchantmidnightmilitaryminister\
    ministryminoritymoderatemoleculemortgagemountainmovementmultiplenationalnegativeneighbornonsense\
    normallynotebooknovembernumerousobserverobstacleoccasionofficialopponentoppositeoptimismordinary\
    organizeoriginaloutbreakpaintingparallelpersonalpersuadephysicalplanningplatformpleasantpleasure\
    politicsportraitpositionpositivepossiblepowerfulpracticepreciouspregnantpresencepreservepressure\
    previousprincesspriorityprobablyproducerprogresspropertyproposalprospectprotocolprovincepurchase\
    quantityquestionrailroadreactionreceiverrecoveryregionalregisterrelationrelativerelevantreliable\
    religionrememberresearchresidentresourceresponsesandwichscenarioschedulesecuritysentenceseparate\
    sequenceshoulderslightlysoftwaresolutionsomebodysomewhatsouthernspecificstandardstrategystrength\
    strikingstrugglesuddenlysuitablesunlightsuperiorsurprisesurvivalsweepingsymbolicsympathyteaspoon\
    teenagerterriblethinkingthousandtogethertomorrowtrackingtrainingtransfertreasuretropicaltrousers\
    ultimateumbrellauniverseunlikelyvacationvaluablevariableverticalviolencevolatileweaknesswhatever\
    wheneverwhereverwildlifewirelesswithdrawworkshopyourself";

/// Every word of 9 letters, in ascending order, without separators.
pub const LEN_9: &'static str = "abundanceaccordingadvantageadventureaffectionafternoonaggregateagreementalternateambulanceapartm\
    entapparatusarchitectassociateastronautattentionauthorityavailablebeautifulbeginningborrowingboy\
    friendbreakfastbrilliantbroadbandbutterflycalculatecandidatecarefullycelebratecertainlychemistry\
    chocolateclassroomcognitivecolleaguecommitteecommunitycomplaintcomponentconditionconsciousconsen\
    susconstructcopyrightcorporatecriticismcuriositycurrentlydangerousdefendantdeliciousdemocracydep\
    resseddeterminedifferentdifficultdimensiondirectiondisappeardiscoverydishonestefficientelsewhere\
    emergencyemotionalencounterequipmentessentialestablisheverybodyevolutionexcellentexceptionexcess\
    iveexecutiveexistenceexpensiveextensionextremelyfinancialfollowingframeworkfrequencyfurnituregat\
    heringgeographygratitudeguaranteehappinesshighlighthistorianhouseholdhurricaneimmediateimportant\
    inflationinfluenceinitiallyinsuranceintensityintentioninterfaceinterviewintroduceinvisibleinvolv\
    ingjudgementknowledgelandscapelightninglimestoneliterallymarketingmechanismmentalitymigrationnec\
    essarynegotiatenewspapernightmareobjectiveobviouslyoperatingoperationorchestraotherwiseparagraph\
    parameterpassengerperfectlyperformerpermanentpersonnelphysicianpineapplepoliticalpollutionpotent\
    ialpreciselypregnancypreparingpresidentprincipalprincipleprivilegeprocedureprocessorprofessorpro\
    grammepromotionprotectedprovisionpublisherqualifiedreasoningrecordingreductionreferenceregularly\
    remainingrepresentreservoirresidenceresistantsecondaryselectionsensitivesentimentseptembersevent\
    eensignaturesimilarlysituationsocialistsomethingsometimessomewherespokesmanstatementstimulatestr\
    ucturesubstancesucceededsufferingsupportersurprisedsustainedtechniquetelephonetelescopetemporary\
    thereforethousandstolerancetraditiontransformtreatmenttypicallyuncertainundermineuniversalunusua\
    llyvegetablevirtuallywonderfulyesterday";

/// Every word of 10 letters, in ascending order, without separators.
pub const LEN_10: &'static str = "absolutelyacceptableaccomplishaccordanceaccountingaccuratelyadditionaladjustmentadmirationadoles\
    centaffordableaggressivealphabeticapparentlyappearanceassessmentassistanceassumptionatmosphereat\
    tendanceattractionbackgroundbasketballbiologicalboundariesbrightnesscalculatorcapabilitycelebrat\
    edchancellorcharacterscollectioncommercialcommissioncommitmentcomparablecomparisoncompatiblecomp\
    lexitycompromiseconcerningconclusionconferenceconfidenceconnectionconsistentconstituteconsultant\
    contributecontrollerconventionconvictioncorruptioncreativitycurriculumdefinitelydemocraticdepart\
    mentdependencedepressiondifferencedifficultydimensionsdisabilitydisciplinediscussiondishwasherdi\
    stributeearthquakeecologicaleconomicalefficiencyelectronicelementaryemploymententerpriseenthusia\
    smequivalentespeciallyevaluationeventuallyeverythingeverywhereexcellenceexhibitionexpeditionexpe\
    rienceexperimentexpressionextinctionfacilitatefellowshipfoundationfrequentlyfriendshipgeneration\
    governmentgraduationhelicopterhistoricalhorizontalhypothesisillustrateimpressiveincreasingincred\
    ibleindicationindividualindustrialinevitableingredientinitiativeinnovationinspectioninstrumentin\
    sulationintegratedinterestedinvestmentinvitationjournalismlaboratoryleadershiplegitimateliberati\
    onliteraturemanagementmanuscriptmeaningfulmembershipmicrophonemysteriousnavigationnoteworthyobli\
    gationoccupationoppositionoriginallyoutrageousparliamentparticularpassionatepercentagepermission\
    personallyphilosophyphotographphysicallyplaygroundpoliticianpopulationpossessionpreferencepresid\
    encypreviouslyproductionprofessionprogrammerproportionprosperityprotectionpsychologypunishmentre\
    asonablerecognizedreflectionregulationrelativelyremarkablerepetitionrepublicanreputationresoluti\
    onrestaurantretirementrevolutionsandwichesscientificsettlementsimplicitysimulationspecialiststra\
    wberrystrengthensubsequentsubstitutesuccessfulsufficientsuggestionsupervisorsurprisingtechnician\
    televisionthemselvesthoroughlythroughouttournamenttransitiontremendousultimatelyunderlyingunders\
    tandunemployeduniversityvulnerablewilderness";

/// Every word of 11 letters, in ascending order, without separators.
pub const LEN_11: &'static str = "documentaryeffectivelyencouragingimaginationinfluentialmathematicsmeasurementspeculationsympathe\
    tictemperature";

/// Every word of 12 letters, in ascending order, without separators.
pub const LEN_12: &'static str = "contemporaryinflammationintellectualmetropolitannevertheless";

/// Every word of 13 letters, in ascending order, without separators.
pub const LEN_13: &'static str = "approximatelyarchitecturalcommunicationcomprehensiveentertainmentenvironmentalextraordinaryindep\
    endentlyinternationalinvestigationneighbourhoodorganizationsrelationshipssignificantlyuncomforta\
    bleunderstanding";

/// Every word of 14 letters, in ascending order, without separators.
pub const LEN_14: &'static str = "accountabilityadministrationinfrastructurephotosynthesisrepresentativeresponsibilitythermodynami\
    cs";

/// Every word of 15 letters, in ascending order, without separators.
pub const LEN_15: &'static str = "congratulationsextraordinarily";

/// Every word of 16 letters, in ascending order, without separators.
pub const LEN_16: &'static str = "incomprehensiblemisunderstandingresponsibilitiesunconstitutional";

/// Every word of 17 letters, in ascending order, without separators.
pub const LEN_17: &'static str = "conceptualizationinterdisciplinary";

/// Every word of 18 letters, in ascending order, without separators.
pub const LEN_18: &'static str = "characteristicallydisproportionatelyoverrepresentationtelecommunications";

/// Every word of 19 letters, in ascending order, without separators.
pub const LEN_19: &'static str = "";

/// Every word of 20 letters, in ascending order, without separators.
pub const LEN_20: &'static str = "institutionalizationinternationalizationuncharacteristically";

/// Every word of 21 letters, in ascending order, without separators.
pub const LEN_21: &'static str = "incomprehensibilities";

/// Every word of 22 letters, in ascending order, without separators.
pub const LEN_22: &'static str = "counterrevolutionaries";

/// Every word of 23 letters, in ascending order, without separators.
pub const LEN_23: &'static str = "";

/// Every word of 24 letters, in ascending order, without separators.
pub const LEN_24: &'static str = "";

/// Every word of 25 letters, in ascending order, without separators.
pub const LEN_25: &'static str = "";

/// Every word of 26 letters, in ascending order, without separators.
pub const LEN_26: &'static str = "";

/// Every word of 27 letters, in ascending order, without separators.
pub const LEN_27: &'static str = "electroencephalographicallyhonorificabilitudinitatibus";

/// Every word of 28 letters, in ascending order, without separators.
pub const LEN_28: &'static str = "antidisestablishmentarianism";

} // verus!
